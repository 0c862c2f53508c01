//! The attempts of a turn: what each of them did, and what they prove together.

use vstd::prelude::*;

use crate::action::{
    action_json, any_part, continues, has_part, lemma_action_is_written, lemma_kinds_differ,
    lemma_sequence_view, probes, repairs, shell_command_collapses_failure_recovery_boundary, within,
    ActionView, InputAction, PartTest,
};
use crate::evidence::{
    add_observation, aegis_attempt_contains_zero_match, aegis_evidence_has_task_readback,
    evidence_has_nonempty_readback_message, evidence_has_task_readback,
    evidence_has_verification_observation, evidence_reports_blocker, has_message, observation_json,
    shows_blocker, shows_content, shows_no_match, shows_readback, was_reobserved, with_observation,
};
use crate::json::{
    array_field, empty_object, field, field_is, lemma_same_as_itself, nat_view, number_field,
    opt_text_view, opt_view, or_null, same_opt_json, same_options, text_field, text_view,
    with_field, Json, JsonView,
};
use crate::response::{
    claims_failure, claims_not_found, claims_pending, claims_result,
    final_response_claims_verified_result, final_response_reports_not_found,
    final_response_reports_prior_failure, planner_response_claims_pending_work,
    response_reports_blocker, response_requests_clarification, tells_blocker, wants_clarification,
};
use crate::step::{
    action_is_observation_only, action_is_text_entry,
    action_requires_visible_reobserve_before_finish, actions_have_same_intent, any_step, enters,
    every_step, json_action_uses_aegis, json_action_uses_clipboard_read,
    json_action_uses_shell_exec, lemma_same_intent_enters_the_same_text,
    lemma_written_part_is_found, same_intent, steps, StepTest,
};
use crate::text::{opt_text, same, texts};
use crate::transcript::{
    transcript_requests_long_range_work, transcript_requires_observed_failure_boundary,
    wants_failure_first, wants_long_work,
};

verus! {

/// One attempt of a turn, as the planner sees it afterwards.
#[derive(Debug)]
pub struct PlanAttemptContext {
    pub attempt_index: usize,
    pub response: String,
    pub action: Option<Json>,
    pub effect: Option<String>,
    pub evidence: Option<Json>,
}

/// What an attempt means.
#[verifier::ext_equal]
pub struct AttemptView {
    pub attempt_index: usize,
    pub response: Seq<char>,
    pub action: Option<JsonView>,
    pub effect: Option<Seq<char>>,
    pub evidence: Option<JsonView>,
}

impl View for PlanAttemptContext {
    type V = AttemptView;

    open spec fn view(&self) -> AttemptView {
        AttemptView {
            attempt_index: self.attempt_index,
            response: self.response@,
            action: opt_view(self.action),
            effect: opt_text(self.effect),
            evidence: opt_view(self.evidence),
        }
    }
}

/// The meanings of a list of attempts.
pub open spec fn attempt_views(attempts: Seq<PlanAttemptContext>) -> Seq<AttemptView> {
    Seq::new(attempts.len(), |i: int| attempts[i]@)
}

fn copy_opt(value: &Option<Json>) -> (copy: Option<Json>)
    ensures
        opt_view(copy) == opt_view(*value),
{
    match value {
        Some(value) => Some(value.clone()),
        None => None,
    }
}

fn copy_opt_text(s: &Option<String>) -> (copy: Option<String>)
    ensures
        opt_text(copy) == opt_text(*s),
{
    match s {
        Some(s) => Some(s.clone()),
        None => None,
    }
}

impl Clone for PlanAttemptContext {
    fn clone(&self) -> (copy: PlanAttemptContext)
        ensures
            copy@ == self@,
    {
        PlanAttemptContext {
            attempt_index: self.attempt_index,
            response: self.response.clone(),
            action: copy_opt(&self.action),
            effect: copy_opt_text(&self.effect),
            evidence: copy_opt(&self.evidence),
        }
    }
}

/// What a turn came to: the reply, the action that was taken and what the
/// daemon reported of it.
#[derive(Debug)]
pub struct CompletedAssistantTurn {
    pub response: String,
    pub action: Option<Json>,
    pub evidence: Option<Json>,
}

/// What a completed turn means.
#[verifier::ext_equal]
pub struct TurnView {
    pub response: Seq<char>,
    pub action: Option<JsonView>,
    pub evidence: Option<JsonView>,
}

impl View for CompletedAssistantTurn {
    type V = TurnView;

    open spec fn view(&self) -> TurnView {
        TurnView {
            response: self.response@,
            action: opt_view(self.action),
            evidence: opt_view(self.evidence),
        }
    }
}

impl Clone for CompletedAssistantTurn {
    fn clone(&self) -> (copy: CompletedAssistantTurn)
        ensures
            copy@ == self@,
    {
        CompletedAssistantTurn {
            response: self.response.clone(),
            action: copy_opt(&self.action),
            evidence: copy_opt(&self.evidence),
        }
    }
}

/// The effect that the evidence names.
pub open spec fn effect_of(evidence: Option<JsonView>) -> Option<Seq<char>> {
    match evidence {
        Some(evidence) => text_field(evidence, "effect"@),
        None => None,
    }
}

/// The effect that the evidence of a turn names.
pub fn turn_effect(turn: &CompletedAssistantTurn) -> (effect: Option<String>)
    ensures
        opt_text(effect) == effect_of(turn@.evidence),
{
    match &turn.evidence {
        Some(evidence) => match evidence.get_text("effect") {
            Some(effect) => Some(effect.clone()),
            None => None,
        },
        None => None,
    }
}

/// Whether an optional string is `expected`.
pub fn option_is(s: &Option<String>, expected: &str) -> (found: bool)
    ensures
        found == (opt_text(*s) == Some(expected@)),
{
    match s {
        Some(s) => same(s.as_str(), expected),
        None => false,
    }
}

/// The questions that are asked of the attempts so far.
#[derive(Clone, Copy, Debug, PartialEq, Eq, Structural)]
pub enum AttemptTest {
    /// It met an obstacle.
    Blocked,
    /// It ran a shell command, which failed.
    FailedShell,
    /// It used Aegis, with an effect that is known.
    AegisUsed,
    /// It looked for text with Aegis and found none.
    AegisFoundNothing,
    /// It was confirmed, and its evidence shows what the task asked for.
    ConfirmedWithEvidence,
    /// It used Aegis, was confirmed, and its evidence shows what was asked for.
    AegisConfirmedWithEvidence,
    /// It entered visible text, and the screen was looked at afterwards.
    AwaitedVerification,
    /// It failed or was refused.
    FailedOrRefused,
}

pub open spec fn effect_is(attempt: AttemptView, effect: Seq<char>) -> bool {
    attempt.effect == Some(effect)
}

pub open spec fn action_has(attempt: AttemptView, test: StepTest) -> bool {
    attempt.action matches Some(action) && any_step(action, test)
}

/// The attempt was confirmed, and its evidence shows what the task asked for.
pub open spec fn proves_task(attempt: AttemptView) -> bool {
    &&& effect_is(attempt, "confirmed"@)
    &&& match (attempt.action, attempt.evidence) {
        (Some(action), Some(evidence)) => if any_step(action, StepTest::Aegis) {
            any_step(action, StepTest::AegisObservation) && shows_content(evidence)
        } else if any_step(action, StepTest::ClipboardRead) {
            has_message(evidence)
        } else {
            shows_readback(evidence)
        },
        _ => false,
    }
}

/// The attempt entered visible text, and the screen was looked at afterwards.
pub open spec fn was_verified_on_screen(attempt: AttemptView) -> bool {
    &&& (effect_is(attempt, "confirmed"@) || effect_is(attempt, "unverifiable"@) || effect_is(
        attempt,
        "partial"@,
    ))
    &&& action_has(attempt, StepTest::VisibleEntry)
    &&& attempt.evidence matches Some(evidence) && was_reobserved(evidence)
}

pub open spec fn attempt_passes(attempt: AttemptView, test: AttemptTest) -> bool {
    match test {
        AttemptTest::Blocked => effect_is(attempt, "refused"@) || (
        attempt.evidence matches Some(evidence) && shows_blocker(evidence)),
        AttemptTest::FailedShell => effect_is(attempt, "failed"@) && action_has(
            attempt,
            StepTest::ShellExec,
        ),
        AttemptTest::AegisUsed => action_has(attempt, StepTest::Aegis) && (effect_is(
            attempt,
            "confirmed"@,
        ) || effect_is(attempt, "partial"@) || effect_is(attempt, "unverifiable"@) || effect_is(
            attempt,
            "refused"@,
        ) || effect_is(attempt, "failed"@)),
        AttemptTest::AegisFoundNothing => action_has(attempt, StepTest::AegisPageFind) && (
        attempt.evidence matches Some(evidence) && shows_no_match(evidence)),
        AttemptTest::ConfirmedWithEvidence => proves_task(attempt),
        AttemptTest::AegisConfirmedWithEvidence => action_has(attempt, StepTest::Aegis)
            && proves_task(attempt),
        AttemptTest::AwaitedVerification => was_verified_on_screen(attempt),
        AttemptTest::FailedOrRefused => effect_is(attempt, "failed"@) || effect_is(
            attempt,
            "refused"@,
        ),
    }
}

/// One of the attempts passes the test.
pub open spec fn any_attempt(attempts: Seq<AttemptView>, test: AttemptTest) -> bool {
    exists|i: int| 0 <= i < attempts.len() && attempt_passes(#[trigger] attempts[i], test)
}

fn has_effect(attempt: &PlanAttemptContext, effect: &str) -> (found: bool)
    ensures
        found == effect_is(attempt@, effect@),
{
    option_is(&attempt.effect, effect)
}

/// Whether the attempt was confirmed, and its evidence shows what the task
/// asked for.
pub fn confirmed_attempt_has_task_evidence(attempt: &PlanAttemptContext) -> (found: bool)
    ensures
        found == proves_task(attempt@),
{
    if !has_effect(attempt, "confirmed") {
        return false;
    }
    match (&attempt.action, &attempt.evidence) {
        (Some(action), Some(evidence)) => if json_action_uses_aegis(action) {
            aegis_evidence_has_task_readback(action, evidence)
        } else if json_action_uses_clipboard_read(action) {
            evidence_has_nonempty_readback_message(evidence)
        } else {
            evidence_has_task_readback(evidence)
        },
        _ => false,
    }
}

/// Whether the attempt entered visible text and the screen was looked at
/// afterwards.
pub fn visible_attempt_awaited_verification(attempt: &PlanAttemptContext) -> (found: bool)
    ensures
        found == was_verified_on_screen(attempt@),
{
    if !(has_effect(attempt, "confirmed") || has_effect(attempt, "unverifiable") || has_effect(
        attempt,
        "partial",
    )) {
        return false;
    }
    match (&attempt.action, &attempt.evidence) {
        (Some(action), Some(evidence)) => action_requires_visible_reobserve_before_finish(action)
            && evidence_has_verification_observation(evidence),
        _ => false,
    }
}

fn passes(attempt: &PlanAttemptContext, test: AttemptTest) -> (found: bool)
    ensures
        found == attempt_passes(attempt@, test),
{
    match test {
        AttemptTest::Blocked => has_effect(attempt, "refused") || match &attempt.evidence {
            Some(evidence) => evidence_reports_blocker(evidence),
            None => false,
        },
        AttemptTest::FailedShell => has_effect(attempt, "failed") && match &attempt.action {
            Some(action) => json_action_uses_shell_exec(action),
            None => false,
        },
        AttemptTest::AegisUsed => (match &attempt.action {
            Some(action) => json_action_uses_aegis(action),
            None => false,
        }) && (has_effect(attempt, "confirmed") || has_effect(attempt, "partial") || has_effect(
            attempt,
            "unverifiable",
        ) || has_effect(attempt, "refused") || has_effect(attempt, "failed")),
        AttemptTest::AegisFoundNothing => match (&attempt.action, &attempt.evidence) {
            (Some(action), Some(evidence)) => aegis_attempt_contains_zero_match(action, evidence),
            _ => false,
        },
        AttemptTest::ConfirmedWithEvidence => confirmed_attempt_has_task_evidence(attempt),
        AttemptTest::AegisConfirmedWithEvidence => (match &attempt.action {
            Some(action) => json_action_uses_aegis(action),
            None => false,
        }) && confirmed_attempt_has_task_evidence(attempt),
        AttemptTest::AwaitedVerification => visible_attempt_awaited_verification(attempt),
        AttemptTest::FailedOrRefused => has_effect(attempt, "failed") || has_effect(
            attempt,
            "refused",
        ),
    }
}

/// Whether one of the attempts passes the test.
pub fn has_attempt(attempts: &Vec<PlanAttemptContext>, test: AttemptTest) -> (found: bool)
    ensures
        found == any_attempt(attempt_views(attempts@), test),
{
    let ghost all = attempt_views(attempts@);
    let mut i: usize = 0;
    while i < attempts.len()
        invariant
            i <= attempts@.len(),
            all == attempt_views(attempts@),
            forall|j: int| 0 <= j < i ==> !attempt_passes(#[trigger] all[j], test),
        decreases attempts@.len() - i,
    {
        assert(all[i as int] == attempts@[i as int]@);
        if passes(&attempts[i], test) {
            return true;
        }
        i = i + 1;
    }
    false
}

/// Whether one of the attempts met an obstacle.
pub fn prior_attempts_have_blocker_evidence(attempts: &Vec<PlanAttemptContext>) -> (found: bool)
    ensures
        found == any_attempt(attempt_views(attempts@), AttemptTest::Blocked),
{
    has_attempt(attempts, AttemptTest::Blocked)
}

/// Whether a shell command of one of the attempts failed.
pub fn prior_attempts_observed_failure_boundary(attempts: &Vec<PlanAttemptContext>) -> (found: bool)
    ensures
        found == any_attempt(attempt_views(attempts@), AttemptTest::FailedShell),
{
    has_attempt(attempts, AttemptTest::FailedShell)
}

/// Whether one of the attempts used Aegis, with an effect that is known.
pub fn prior_attempts_include_aegis_evidence(attempts: &Vec<PlanAttemptContext>) -> (found: bool)
    ensures
        found == any_attempt(attempt_views(attempts@), AttemptTest::AegisUsed),
{
    has_attempt(attempts, AttemptTest::AegisUsed)
}

/// Whether one of the attempts looked for text with Aegis and found none.
pub fn prior_attempts_include_aegis_zero_match(attempts: &Vec<PlanAttemptContext>) -> (found: bool)
    ensures
        found == any_attempt(attempt_views(attempts@), AttemptTest::AegisFoundNothing),
{
    has_attempt(attempts, AttemptTest::AegisFoundNothing)
}

/// The attempts bear out a reply that claims a result.
pub open spec fn supports_result(response: Seq<char>, attempts: Seq<AttemptView>) -> bool {
    &&& claims_result(response)
    &&& (any_attempt(attempts, AttemptTest::ConfirmedWithEvidence) || any_attempt(
        attempts,
        AttemptTest::AwaitedVerification,
    ))
}

/// Whether the attempts bear out a reply that claims a result.
pub fn prior_attempts_support_verified_final(
    response: &str,
    attempts: &Vec<PlanAttemptContext>,
) -> (found: bool)
    ensures
        found == supports_result(response@, attempt_views(attempts@)),
{
    final_response_claims_verified_result(response) && (has_attempt(
        attempts,
        AttemptTest::ConfirmedWithEvidence,
    ) || has_attempt(attempts, AttemptTest::AwaitedVerification))
}

/// The attempts bear out a reply that reports a failure.
pub open spec fn supports_failure(response: Seq<char>, attempts: Seq<AttemptView>) -> bool {
    claims_failure(response) && any_attempt(attempts, AttemptTest::FailedOrRefused)
}

/// Whether the attempts bear out a reply that reports a failure.
pub fn prior_attempts_support_failure_final(
    response: &str,
    attempts: &Vec<PlanAttemptContext>,
) -> (found: bool)
    ensures
        found == supports_failure(response@, attempt_views(attempts@)),
{
    final_response_reports_prior_failure(response) && has_attempt(
        attempts,
        AttemptTest::FailedOrRefused,
    )
}

/// The attempts bear out a final reply to a request that names Aegis.
pub open spec fn supports_aegis_final(response: Seq<char>, attempts: Seq<AttemptView>) -> bool {
    if claims_not_found(response) {
        any_attempt(attempts, AttemptTest::AegisFoundNothing)
    } else if claims_result(response) {
        any_attempt(attempts, AttemptTest::AegisConfirmedWithEvidence)
    } else {
        supports_failure(response, attempts) && any_attempt(attempts, AttemptTest::AegisUsed)
    }
}

/// Whether the attempts bear out a final reply to a request that names Aegis.
pub fn prior_attempts_support_explicit_aegis_final(
    response: &str,
    attempts: &Vec<PlanAttemptContext>,
) -> (found: bool)
    ensures
        found == supports_aegis_final(response@, attempt_views(attempts@)),
{
    if final_response_reports_not_found(response) {
        return prior_attempts_include_aegis_zero_match(attempts);
    }
    if final_response_claims_verified_result(response) {
        return has_attempt(attempts, AttemptTest::AegisConfirmedWithEvidence);
    }
    prior_attempts_support_failure_final(response, attempts)
        && prior_attempts_include_aegis_evidence(attempts)
}

/// An observation that was made already, with nothing changed since.
pub open spec fn repeats_observation(attempts: Seq<AttemptView>, action: JsonView) -> bool
    decreases attempts.len(),
{
    if attempts.len() == 0 {
        false
    } else {
        let last = attempts.last();
        let earlier = attempts.drop_last();
        match last.action {
            None => repeats_observation(earlier, action),
            Some(prior) => {
                &&& every_step(prior, StepTest::Observation)
                &&& ((same_intent(prior, action) && (effect_is(last, "confirmed"@) || effect_is(
                    last,
                    "suspected_noop"@,
                ))) || repeats_observation(earlier, action))
            },
        }
    }
}

/// Whether an observation was made already, with nothing changed since.
pub fn observation_repeats_without_intervening_change(
    attempts: &Vec<PlanAttemptContext>,
    action: &Json,
) -> (found: bool)
    ensures
        found == repeats_observation(attempt_views(attempts@), action@),
{
    let ghost all = attempt_views(attempts@);
    let mut i: usize = attempts.len();
    assert(all.take(i as int) =~= all);
    while i > 0
        invariant
            i <= attempts@.len(),
            all == attempt_views(attempts@),
            repeats_observation(all, action@) == repeats_observation(all.take(i as int), action@),
        decreases i,
    {
        let attempt = &attempts[i - 1];
        assert(all.take(i as int).last() == attempt@);
        assert(all.take(i as int).drop_last() =~= all.take(i - 1));
        match &attempt.action {
            None => {},
            Some(prior) => {
                if !action_is_observation_only(prior) {
                    return false;
                }
                if actions_have_same_intent(prior, action) && (has_effect(attempt, "confirmed")
                    || has_effect(attempt, "suspected_noop")) {
                    return true;
                }
            },
        }
        i = i - 1;
    }
    false
}

/// An attempt that was confirmed asked for the same thing.
pub open spec fn was_confirmed(attempt: AttemptView, action: JsonView) -> bool {
    effect_is(attempt, "confirmed"@) && (attempt.action matches Some(prior) && same_intent(
        prior,
        action,
    ))
}

/// The action was done already: an observation without change since, or an
/// action that was confirmed.
pub open spec fn repeats_confirmed(attempts: Seq<AttemptView>, action: JsonView) -> bool {
    if every_step(action, StepTest::Observation) {
        repeats_observation(attempts, action)
    } else {
        exists|i: int| 0 <= i < attempts.len() && was_confirmed(#[trigger] attempts[i], action)
    }
}

/// Whether the action was done already.
pub fn action_repeats_confirmed_attempt(
    attempts: &Vec<PlanAttemptContext>,
    action: &Json,
) -> (found: bool)
    ensures
        found == repeats_confirmed(attempt_views(attempts@), action@),
{
    if action_is_observation_only(action) {
        return observation_repeats_without_intervening_change(attempts, action);
    }
    let ghost all = attempt_views(attempts@);
    let mut i: usize = 0;
    while i < attempts.len()
        invariant
            i <= attempts@.len(),
            all == attempt_views(attempts@),
            !every_step(action@, StepTest::Observation),
            forall|j: int| 0 <= j < i ==> !was_confirmed(#[trigger] all[j], action@),
        decreases attempts@.len() - i,
    {
        let attempt = &attempts[i];
        assert(all[i as int] == attempt@);
        if has_effect(attempt, "confirmed") {
            if let Some(prior) = &attempt.action {
                if actions_have_same_intent(prior, action) {
                    return true;
                }
            }
        }
        i = i + 1;
    }
    false
}

/// An attempt entered the same text.
pub open spec fn entered_text(attempt: AttemptView, action: JsonView) -> bool {
    attempt.action matches Some(prior) && any_step(prior, StepTest::TextEntry) && same_intent(
        prior,
        action,
    )
}

/// The action enters text that an attempt has entered already.
pub open spec fn repeats_text(attempts: Seq<AttemptView>, action: JsonView) -> bool {
    &&& any_step(action, StepTest::TextEntry)
    &&& exists|i: int| 0 <= i < attempts.len() && entered_text(#[trigger] attempts[i], action)
}

/// Whether the action enters text that an attempt has entered already.
pub fn action_repeats_text_entry_attempt(
    attempts: &Vec<PlanAttemptContext>,
    action: &Json,
) -> (found: bool)
    ensures
        found == repeats_text(attempt_views(attempts@), action@),
{
    if !action_is_text_entry(action) {
        return false;
    }
    let ghost all = attempt_views(attempts@);
    let mut i: usize = 0;
    while i < attempts.len()
        invariant
            i <= attempts@.len(),
            all == attempt_views(attempts@),
            any_step(action@, StepTest::TextEntry),
            forall|j: int| 0 <= j < i ==> !entered_text(#[trigger] all[j], action@),
        decreases attempts@.len() - i,
    {
        assert(all[i as int] == attempts@[i as int]@);
        if let Some(prior) = &attempts[i].action {
            if action_is_text_entry(prior) && actions_have_same_intent(prior, action) {
                return true;
            }
        }
        i = i + 1;
    }
    false
}

/// The attempt ended because the planner could not be reached.
pub open spec fn was_outage(attempt: AttemptView) -> bool {
    attempt.evidence matches Some(evidence) && field_is(
        evidence,
        "reason"@,
        "planning_infrastructure_error"@,
    )
}

/// How many of the last attempts in a row ended because the planner could not
/// be reached.
pub open spec fn outages(attempts: Seq<AttemptView>) -> nat
    decreases attempts.len(),
{
    if attempts.len() > 0 && was_outage(attempts.last()) {
        outages(attempts.drop_last()) + 1
    } else {
        0
    }
}

/// There are no more outages than attempts.
pub proof fn lemma_outages_bound(attempts: Seq<AttemptView>)
    ensures
        outages(attempts) <= attempts.len(),
    decreases attempts.len(),
{
    if attempts.len() > 0 && was_outage(attempts.last()) {
        lemma_outages_bound(attempts.drop_last());
    }
}

/// How many of the last attempts in a row ended because the planner could not
/// be reached.
pub fn consecutive_planning_infrastructure_errors(attempts: &Vec<PlanAttemptContext>) -> (count:
    usize)
    ensures
        count == outages(attempt_views(attempts@)),
        count <= attempts@.len(),
{
    let ghost all = attempt_views(attempts@);
    let mut count: usize = 0;
    assert(all.take(all.len() as int) =~= all);
    while count < attempts.len()
        invariant
            count <= attempts@.len(),
            all == attempt_views(attempts@),
            outages(all) == count + outages(all.take(all.len() - count)),
        decreases attempts@.len() - count,
    {
        let attempt = &attempts[attempts.len() - 1 - count];
        let ghost rest = all.take(all.len() - count);
        assert(rest.last() == attempt@);
        assert(rest.drop_last() =~= all.take(all.len() - count - 1));
        let outage = match &attempt.evidence {
            Some(evidence) => evidence.text_is("reason", "planning_infrastructure_error"),
            None => false,
        };
        if !outage {
            return count;
        }
        count = count + 1;
    }
    count
}

/// What an ended turn amounts to when its evidence names no effect.
pub open spec fn inferred_effect(
    has_action: bool,
    response: Seq<char>,
    attempts: Seq<AttemptView>,
) -> Seq<char> {
    if has_action {
        "unverifiable"@
    } else if supports_result(response, attempts) {
        "confirmed"@
    } else if supports_failure(response, attempts) {
        "failed"@
    } else {
        "stopped"@
    }
}

/// What an ended turn amounts to when its evidence names no effect.
pub fn inferred_final_effect(
    completed: &CompletedAssistantTurn,
    attempts: &Vec<PlanAttemptContext>,
) -> (effect: &'static str)
    ensures
        effect@ == inferred_effect(
            completed@.action is Some,
            completed@.response,
            attempt_views(attempts@),
        ),
{
    if completed.action.is_some() {
        return "unverifiable";
    }
    if prior_attempts_support_verified_final(completed.response.as_str(), attempts) {
        return "confirmed";
    }
    if prior_attempts_support_failure_final(completed.response.as_str(), attempts) {
        return "failed";
    }
    "stopped"
}

/// The effect of a turn: the one that its evidence names; for a final reply
/// after other attempts, the one that those bear out.
pub open spec fn observed_effect(turn: TurnView, attempts: Seq<AttemptView>) -> Option<Seq<char>> {
    match effect_of(turn.evidence) {
        Some(effect) => Some(effect),
        None => if attempts.len() > 0 && turn.action is None {
            Some(inferred_effect(false, turn.response, attempts))
        } else {
            None
        },
    }
}

/// The effect of a turn.
pub fn observed_turn_effect(
    turn: &CompletedAssistantTurn,
    attempts: &Vec<PlanAttemptContext>,
) -> (effect: Option<String>)
    ensures
        opt_text(effect) == observed_effect(turn@, attempt_views(attempts@)),
{
    match turn_effect(turn) {
        Some(effect) => Some(effect),
        None => if attempts.len() > 0 && turn.action.is_none() {
            Some(inferred_final_effect(turn, attempts).to_owned())
        } else {
            None
        },
    }
}

/// The turn only relabels the attempt, because the budget ended with it.
pub open spec fn relabels(turn: TurnView, attempt: AttemptView) -> bool {
    &&& turn.evidence matches Some(evidence) && field_is(
        evidence,
        "reason"@,
        "long_range_goal_reached_agent_loop_budget"@,
    ) && same_opt_json(field(evidence, "last_evidence"@), attempt.evidence)
    &&& same_opt_json(turn.action, attempt.action)
}

/// Whether the turn only relabels the attempt, because the budget ended with it.
pub fn budget_exhausted_relabels_attempt(
    completed: &CompletedAssistantTurn,
    attempt: &PlanAttemptContext,
) -> (found: bool)
    ensures
        found == relabels(completed@, attempt@),
{
    match &completed.evidence {
        Some(evidence) => {
            let same_evidence = match (evidence.get("last_evidence"), &attempt.evidence) {
                (Some(last), Some(prior)) => last.same_as(prior),
                (None, None) => true,
                _ => false,
            };
            evidence.text_is("reason", "long_range_goal_reached_agent_loop_budget") && same_options(
                &completed.action,
                &attempt.action,
            ) && same_evidence
        },
        None => false,
    }
}

/// The last attempt is the completed turn.
pub open spec fn is_recorded(turn: TurnView, attempts: Seq<AttemptView>) -> bool {
    attempts.len() > 0 && {
        let last = attempts.last();
        ||| (last.response == turn.response && same_opt_json(last.action, turn.action)
            && same_opt_json(last.evidence, turn.evidence))
        ||| relabels(turn, last)
    }
}

/// Whether the last attempt is the completed turn.
pub fn prior_attempts_include_completed(
    completed: &CompletedAssistantTurn,
    attempts: &Vec<PlanAttemptContext>,
) -> (found: bool)
    ensures
        found == is_recorded(completed@, attempt_views(attempts@)),
{
    if attempts.len() == 0 {
        return false;
    }
    let last = &attempts[attempts.len() - 1];
    assert(attempt_views(attempts@).last() == last@);
    (same(last.response.as_str(), completed.response.as_str()) && same_options(
        &last.action,
        &completed.action,
    ) && same_options(&last.evidence, &completed.evidence)) || budget_exhausted_relabels_attempt(
        completed,
        last,
    )
}

/// How many attempts a turn took, the completed one among them.
pub fn loop_attempt_count(
    completed: &CompletedAssistantTurn,
    attempts: &Vec<PlanAttemptContext>,
) -> (count: usize)
    requires
        attempts@.len() < usize::MAX,
    ensures
        count == attempts@.len() + (if is_recorded(completed@, attempt_views(attempts@)) {
            0int
        } else {
            1int
        }),
{
    if prior_attempts_include_completed(completed, attempts) {
        attempts.len()
    } else {
        attempts.len() + 1
    }
}

/// The JSON object of an attempt.
pub open spec fn attempt_json(attempt: AttemptView) -> JsonView {
    with_field(
        with_field(
            with_field(
                with_field(
                    with_field(
                        empty_object(),
                        "attempt_index"@,
                        nat_view(attempt.attempt_index as u64),
                    ),
                    "response"@,
                    text_view(attempt.response),
                ),
                "action"@,
                or_null(attempt.action),
            ),
            "effect"@,
            opt_text_view(attempt.effect),
        ),
        "evidence"@,
        or_null(attempt.evidence),
    )
}

pub open spec fn attempts_json(attempts: Seq<AttemptView>) -> JsonView {
    JsonView::Array(Seq::new(attempts.len(), |i: int| attempt_json(attempts[i])))
}

impl PlanAttemptContext {
    /// The JSON object of an attempt.
    pub fn to_json(&self) -> (value: Json)
        ensures
            value@ == attempt_json(self@),
    {
        let mut value = Json::object();
        value.set("attempt_index", Json::number(self.attempt_index as u64));
        value.set("response", Json::text(self.response.as_str()));
        value.set("action", Json::opt(&self.action));
        value.set("effect", Json::opt_text(&self.effect));
        value.set("evidence", Json::opt(&self.evidence));
        value
    }
}

fn list_attempts(attempts: &Vec<PlanAttemptContext>) -> (value: Json)
    ensures
        value@ == attempts_json(attempt_views(attempts@)),
{
    let mut list: Vec<Json> = Vec::new();
    let mut i: usize = 0;
    while i < attempts.len()
        invariant
            i <= attempts@.len(),
            list@.len() == i,
            forall|j: int| 0 <= j < i ==> (#[trigger] list@[j])@ == attempt_json(attempts@[j]@),
        decreases attempts@.len() - i,
    {
        list.push(attempts[i].to_json());
        i = i + 1;
    }
    let value = Json::Array(list);
    assert(value@->Array_0 =~= attempts_json(attempt_views(attempts@))->Array_0);
    value
}

/// A copy of the attempts so far.
pub fn copy_attempts(attempts: &Vec<PlanAttemptContext>) -> (copy: Vec<PlanAttemptContext>)
    ensures
        attempt_views(copy@) == attempt_views(attempts@),
{
    let mut copy: Vec<PlanAttemptContext> = Vec::new();
    let mut i: usize = 0;
    while i < attempts.len()
        invariant
            i <= attempts@.len(),
            copy@.len() == i,
            forall|j: int| 0 <= j < i ==> (#[trigger] copy@[j])@ == attempts@[j]@,
        decreases attempts@.len() - i,
    {
        copy.push(attempts[i].clone());
        i = i + 1;
    }
    assert(attempt_views(copy@) =~= attempt_views(attempts@));
    copy
}

/// The effect of the whole turn.
pub open spec fn final_effect(turn: TurnView, attempts: Seq<AttemptView>) -> Seq<char> {
    match effect_of(turn.evidence) {
        Some(effect) => effect,
        None => inferred_effect(turn.action is Some, turn.response, attempts),
    }
}

/// All attempts of a turn, the completed one among them.
pub open spec fn all_attempts(turn: TurnView, attempts: Seq<AttemptView>) -> Seq<AttemptView> {
    if is_recorded(turn, attempts) {
        attempts
    } else {
        attempts.push(
            AttemptView {
                attempt_index: (attempts.len() + 1) as usize,
                response: turn.response,
                action: turn.action,
                effect: Some(final_effect(turn, attempts)),
                evidence: turn.evidence,
            },
        )
    }
}

/// A completed turn with the record of its attempts; a turn of one attempt
/// stays as it is.
pub open spec fn with_loop_evidence(turn: TurnView, attempts: Seq<AttemptView>) -> TurnView {
    if attempts.len() == 0 {
        turn
    } else {
        TurnView {
            response: turn.response,
            action: turn.action,
            evidence: Some(
                with_field(
                    with_field(
                        with_field(
                            with_field(
                                empty_object(),
                                "effect"@,
                                text_view(final_effect(turn, attempts)),
                            ),
                            "final_evidence"@,
                            or_null(turn.evidence),
                        ),
                        "attempt_count"@,
                        nat_view(all_attempts(turn, attempts).len() as u64),
                    ),
                    "attempts"@,
                    attempts_json(all_attempts(turn, attempts)),
                ),
            ),
        }
    }
}

/// Adds the record of its attempts to a completed turn.
pub fn attach_loop_evidence(
    completed: CompletedAssistantTurn,
    prior_attempts: &Vec<PlanAttemptContext>,
) -> (result: CompletedAssistantTurn)
    requires
        prior_attempts@.len() < usize::MAX,
    ensures
        result@ == with_loop_evidence(completed@, attempt_views(prior_attempts@)),
{
    if prior_attempts.len() == 0 {
        return completed;
    }
    let ghost turn = completed@;
    let ghost prior = attempt_views(prior_attempts@);
    let recorded = prior_attempts_include_completed(&completed, prior_attempts);
    let effect = match turn_effect(&completed) {
        Some(effect) => effect,
        None => inferred_final_effect(&completed, prior_attempts).to_owned(),
    };
    let mut attempts = copy_attempts(prior_attempts);
    if !recorded {
        let last = PlanAttemptContext {
            attempt_index: prior_attempts.len() + 1,
            response: completed.response.clone(),
            action: copy_opt(&completed.action),
            effect: Some(effect.clone()),
            evidence: copy_opt(&completed.evidence),
        };
        let ghost before = attempts@;
        assert(before.len() == prior.len()) by {
            assert(attempt_views(before).len() == prior.len());
        }
        attempts.push(last);
        assert(attempt_views(attempts@) =~= attempt_views(before).push(last@));
    }
    assert(attempt_views(attempts@) == all_attempts(turn, prior));
    assert(attempt_views(attempts@).len() == attempts@.len());
    let mut evidence = Json::object();
    evidence.set("effect", Json::Text(effect));
    evidence.set("final_evidence", Json::opt(&completed.evidence));
    evidence.set("attempt_count", Json::number(attempts.len() as u64));
    evidence.set("attempts", list_attempts(&attempts));
    CompletedAssistantTurn {
        response: completed.response,
        action: completed.action,
        evidence: Some(evidence),
    }
}

/// Adds what a second look at the screen gave to the last attempt.
pub open spec fn observe_last(attempts: Seq<AttemptView>, observation: JsonView) -> Seq<AttemptView> {
    if attempts.len() == 0 {
        attempts
    } else {
        attempts.update(
            attempts.len() - 1,
            AttemptView {
                evidence: Some(with_observation(attempts.last().evidence, observation)),
                ..attempts.last()
            },
        )
    }
}

/// Adds what a second look at the screen gave to the last attempt.
pub fn attach_verification_observation_to_last_attempt(
    attempts: &mut Vec<PlanAttemptContext>,
    has_frame: bool,
    has_desktop: bool,
    errors: &Vec<String>,
)
    ensures
        attempt_views(final(attempts)@) == observe_last(
            attempt_views(old(attempts)@),
            observation_json(has_frame, has_desktop, texts(errors@)),
        ),
        final(attempts)@.len() == old(attempts)@.len(),
{
    let ghost before = attempts@;
    match attempts.pop() {
        Some(last) => {
            let PlanAttemptContext { attempt_index, response, action, effect, evidence } = last;
            let evidence = add_observation(evidence, has_frame, has_desktop, errors);
            attempts.push(
                PlanAttemptContext {
                    attempt_index,
                    response,
                    action,
                    effect,
                    evidence: Some(evidence),
                },
            );
            assert(attempt_views(attempts@) =~= observe_last(
                attempt_views(before),
                observation_json(has_frame, has_desktop, texts(errors@)),
            ));
        },
        None => {},
    }
}

/// The reply speaks of work to come but brings no action.
pub open spec fn idles(response: Seq<char>, action: Option<JsonView>) -> bool {
    action is None && claims_pending(response)
}

/// Whether the reply speaks of work to come but brings no action.
pub fn action_null_plan_claims_pending_work(response: &str, action: &Option<Json>) -> (found: bool)
    ensures
        found == idles(response@, opt_view(*action)),
{
    action.is_none() && planner_response_claims_pending_work(response)
}

/// A reply without action that the attempts bear out.
pub open spec fn finishes(
    response: Seq<char>,
    action: Option<JsonView>,
    attempts: Seq<AttemptView>,
) -> bool {
    action is None && attempts.len() > 0 && (supports_result(response, attempts)
        || supports_failure(response, attempts))
}

/// Whether a reply without action is one that the attempts bear out.
pub fn action_null_finishes_after_prior_attempts(
    response: &str,
    action: &Option<Json>,
    attempts: &Vec<PlanAttemptContext>,
) -> (found: bool)
    ensures
        found == finishes(response@, opt_view(*action), attempt_views(attempts@)),
{
    action.is_none() && attempts.len() > 0 && (prior_attempts_support_verified_final(
        response,
        attempts,
    ) || prior_attempts_support_failure_final(response, attempts))
}

/// The reply names an obstacle that an attempt met.
pub open spec fn is_blocked(response: Seq<char>, attempts: Seq<AttemptView>) -> bool {
    tells_blocker(response) && any_attempt(attempts, AttemptTest::Blocked)
}

/// Whether the reply names an obstacle that an attempt met.
pub fn response_reports_evidence_backed_blocker(
    response: &str,
    attempts: &Vec<PlanAttemptContext>,
) -> (found: bool)
    ensures
        found == is_blocked(response@, attempt_views(attempts@)),
{
    response_reports_blocker(response) && prior_attempts_have_blocker_evidence(attempts)
}

/// A reply without action gives long work up: nothing bears it out, and it
/// neither asks the user nor names an obstacle that was met.
pub open spec fn gives_up(
    transcript: Seq<char>,
    response: Seq<char>,
    action: Option<JsonView>,
    attempts: Seq<AttemptView>,
) -> bool {
    &&& action is None
    &&& wants_long_work(transcript)
    &&& !finishes(response, action, attempts)
    &&& !claims_pending(response)
    &&& !wants_clarification(response)
    &&& !is_blocked(response, attempts)
}

/// Whether a reply without action gives long work up.
pub fn action_null_stops_long_range_without_evidence(
    transcript: &str,
    response: &str,
    action: &Option<Json>,
    attempts: &Vec<PlanAttemptContext>,
) -> (found: bool)
    ensures
        found == gives_up(transcript@, response@, opt_view(*action), attempt_views(attempts@)),
{
    action.is_none() && transcript_requests_long_range_work(transcript)
        && !action_null_finishes_after_prior_attempts(response, action, attempts)
        && !planner_response_claims_pending_work(response) && !response_requests_clarification(
        response,
    ) && !response_reports_evidence_backed_blocker(response, attempts)
}

/// The plan repairs a failure in the same breath, although the user wants to
/// see it and has not yet.
pub open spec fn hides_failure(
    transcript: Seq<char>,
    action: ActionView,
    attempts: Seq<AttemptView>,
) -> bool {
    &&& wants_failure_first(transcript)
    &&& !any_attempt(attempts, AttemptTest::FailedShell)
    &&& match action {
        ActionView::ShellExec { command, .. } => probes(command) && repairs(command) && continues(
            command,
        ),
        ActionView::Sequence { actions, .. } => actions.len() > 1 && any_part(
            action,
            PartTest::FailureOrRecovery,
        ),
        _ => false,
    }
}

/// Whether the plan repairs a failure in the same breath, although the user
/// wants to see it and has not yet.
pub fn failure_boundary_plan_collapses_recovery(
    transcript: &str,
    action: &InputAction,
    attempts: &Vec<PlanAttemptContext>,
) -> (found: bool)
    ensures
        found == hides_failure(transcript@, action@, attempt_views(attempts@)),
{
    if !transcript_requires_observed_failure_boundary(transcript) {
        return false;
    }
    if prior_attempts_observed_failure_boundary(attempts) {
        return false;
    }
    match action {
        InputAction::ShellExec { command, .. } => {
            shell_command_collapses_failure_recovery_boundary(command.as_str())
        },
        InputAction::Sequence { actions, inter_action_delay_ms } => {
            proof {
                lemma_sequence_view(*actions, *inter_action_delay_ms);
            }
            actions.len() > 1 && has_part(action, PartTest::FailureOrRecovery)
        },
        _ => false,
    }
}

/// A plan that is rejected because its text was entered enters no text that no
/// attempt before has entered.
pub proof fn lemma_new_text_is_not_rejected(
    attempts: Seq<AttemptView>,
    action: JsonView,
    text: Seq<char>,
)
    requires
        enters(action, text),
        forall|i: int|
            0 <= i < attempts.len() ==> ((#[trigger] attempts[i]).action matches Some(prior)
                ==> !enters(prior, text)),
    ensures
        !repeats_text(attempts, action),
        !repeats_confirmed(attempts, action),
{
    assert forall|i: int| 0 <= i < attempts.len() implies ((#[trigger] attempts[i]).action matches Some(
        prior,
    ) ==> !same_intent(prior, action)) by {
        if let Some(prior) = attempts[i].action {
            if same_intent(prior, action) {
                lemma_same_intent_enters_the_same_text(prior, action, text);
            }
        }
    }
    lemma_repeated_observation_was_made(attempts, action);
}

/// A plan with the text of an attempt before is rejected, whatever came of that
/// attempt.
pub proof fn lemma_same_text_is_rejected(
    attempts: Seq<AttemptView>,
    action: JsonView,
    prior: JsonView,
    text: Seq<char>,
    i: int,
)
    requires
        0 <= i < attempts.len(),
        attempts[i].action == Some(prior),
        same_intent(prior, action),
        enters(action, text),
    ensures
        repeats_text(attempts, action),
{
    lemma_same_intent_enters_the_same_text(prior, action, text);
    lemma_text_makes_a_text_entry(prior, text);
    lemma_text_makes_a_text_entry(action, text);
    assert(entered_text(attempts[i], action));
}

/// A plan that enters text is one of text entry.
pub proof fn lemma_text_makes_a_text_entry(action: JsonView, text: Seq<char>)
    requires
        enters(action, text),
    ensures
        any_step(action, StepTest::TextEntry),
    decreases action,
{
    if text_field(action, "kind"@) == Some("sequence"@) {
        let items = array_field(action, "actions"@)->Some_0;
        let i = choose|i: int| 0 <= i < items.len() && enters(#[trigger] items[i], text);
        assert(decreases_to!(action => items[i]));
        lemma_text_makes_a_text_entry(items[i], text);
        assert(any_step(steps(action)[i], StepTest::TextEntry));
    }
}

/// What is taken for done already was asked for before, with an effect that was
/// confirmed or, of an observation, showed no change.
pub proof fn lemma_repeated_action_was_taken(attempts: Seq<AttemptView>, action: JsonView)
    requires
        repeats_confirmed(attempts, action),
    ensures
        exists|i: int|
            0 <= i < attempts.len() && ((#[trigger] attempts[i]).action matches Some(prior)
                && same_intent(prior, action)) && (attempts[i].effect == Some("confirmed"@)
                || attempts[i].effect == Some("suspected_noop"@)),
{
    lemma_repeated_observation_was_made(attempts, action);
    if !every_step(action, StepTest::Observation) {
        let i = choose|i: int| 0 <= i < attempts.len() && was_confirmed(
            #[trigger] attempts[i],
            action,
        );
        assert(attempts[i].effect == Some("confirmed"@));
    }
}

proof fn lemma_repeated_observation_was_made(attempts: Seq<AttemptView>, action: JsonView)
    ensures
        repeats_observation(attempts, action) ==> exists|i: int|
            0 <= i < attempts.len() && ((#[trigger] attempts[i]).action matches Some(prior)
                && same_intent(prior, action)) && (attempts[i].effect == Some("confirmed"@)
                || attempts[i].effect == Some("suspected_noop"@)),
    decreases attempts.len(),
{
    if attempts.len() > 0 && repeats_observation(attempts, action) {
        let earlier = attempts.drop_last();
        lemma_repeated_observation_was_made(earlier, action);
        if repeats_observation(earlier, action) {
            let i = choose|i: int|
                0 <= i < earlier.len() && ((#[trigger] earlier[i]).action matches Some(prior)
                    && same_intent(prior, action)) && (earlier[i].effect == Some("confirmed"@)
                    || earlier[i].effect == Some("suspected_noop"@));
            assert(attempts[i] == earlier[i]);
        } else {
            assert(attempts[attempts.len() - 1] == attempts.last());
        }
    }
}

/// An action that is more than an observation is taken for done exactly if an
/// attempt that asked for it was confirmed, however long ago.
pub proof fn lemma_confirmed_action_is_done(
    attempts: Seq<AttemptView>,
    action: JsonView,
    prior: JsonView,
    i: int,
)
    requires
        !every_step(action, StepTest::Observation),
    ensures
        0 <= i < attempts.len() && attempts[i].action == Some(prior) && same_intent(prior, action)
            && attempts[i].effect == Some("confirmed"@) ==> repeats_confirmed(attempts, action),
        (forall|j: int|
            0 <= j < attempts.len() ==> (#[trigger] attempts[j]).effect != Some("confirmed"@))
            ==> !repeats_confirmed(attempts, action),
{
    if 0 <= i < attempts.len() && attempts[i].action == Some(prior) && same_intent(prior, action)
        && attempts[i].effect == Some("confirmed"@) {
        assert(was_confirmed(attempts[i], action));
    }
}

/// Once something else than an observation was done, each observation may be
/// made again.
pub proof fn lemma_change_allows_a_second_look(
    attempts: Seq<AttemptView>,
    changed: AttemptView,
    step: JsonView,
    action: JsonView,
)
    requires
        changed.action == Some(step),
        !every_step(step, StepTest::Observation),
    ensures
        !repeats_observation(attempts.push(changed), action),
        every_step(action, StepTest::Observation) ==> !repeats_confirmed(
            attempts.push(changed),
            action,
        ),
{
    assert(attempts.push(changed).drop_last() =~= attempts);
}

/// An observation that was just made is not made again; one that was made before
/// stays made while nothing is done, or only other observations.
pub proof fn lemma_observation_stays_made(
    attempts: Seq<AttemptView>,
    next: AttemptView,
    step: JsonView,
    action: JsonView,
)
    ensures
        next.action is None ==> repeats_observation(attempts.push(next), action)
            == repeats_observation(attempts, action),
        next.action == Some(step) && every_step(step, StepTest::Observation) && same_intent(
            step,
            action,
        ) && (next.effect == Some("confirmed"@) || next.effect == Some("suspected_noop"@))
            ==> repeats_observation(attempts.push(next), action),
        next.action == Some(step) && every_step(step, StepTest::Observation) && !same_intent(
            step,
            action,
        ) ==> repeats_observation(attempts.push(next), action) == repeats_observation(
            attempts,
            action,
        ),
        next.action == Some(step) && every_step(step, StepTest::Observation) && next.effect != Some(
            "confirmed"@,
        ) && next.effect != Some("suspected_noop"@) ==> repeats_observation(
            attempts.push(next),
            action,
        ) == repeats_observation(attempts, action),
        !repeats_observation(Seq::empty(), action),
{
    assert(attempts.push(next).drop_last() =~= attempts);
}

/// An outage adds one to the outages in a row, and anything else ends the row.
pub proof fn lemma_outages_in_a_row(attempts: Seq<AttemptView>, next: AttemptView)
    ensures
        outages(Seq::empty()) == 0,
        next.evidence matches Some(evidence) && text_field(evidence, "reason"@) == Some(
            "planning_infrastructure_error"@,
        ) ==> outages(attempts.push(next)) == outages(attempts) + 1,
        next.evidence is None ==> outages(attempts.push(next)) == 0,
        next.evidence matches Some(evidence) && text_field(evidence, "reason"@) != Some(
            "planning_infrastructure_error"@,
        ) ==> outages(attempts.push(next)) == 0,
{
    assert(attempts.push(next).drop_last() =~= attempts);
}

/// What one of the attempts shows all of them show, whichever it is, and what
/// none of them shows they do not show.
pub proof fn lemma_one_attempt_is_enough(
    a: Seq<AttemptView>,
    b: Seq<AttemptView>,
    attempt: AttemptView,
    test: AttemptTest,
)
    ensures
        any_attempt(a + b, test) == (any_attempt(a, test) || any_attempt(b, test)),
        any_attempt(seq![attempt], test) == attempt_passes(attempt, test),
        !any_attempt(Seq::empty(), test),
{
    let whole = a + b;
    if any_attempt(a, test) {
        let i = choose|i: int| 0 <= i < a.len() && attempt_passes(#[trigger] a[i], test);
        assert(whole[i] == a[i]);
    }
    if any_attempt(b, test) {
        let i = choose|i: int| 0 <= i < b.len() && attempt_passes(#[trigger] b[i], test);
        assert(whole[a.len() + i] == b[i]);
    }
    if any_attempt(whole, test) {
        let i = choose|i: int| 0 <= i < whole.len() && attempt_passes(#[trigger] whole[i], test);
        if i < a.len() {
            assert(whole[i] == a[i]);
        } else {
            assert(whole[i] == b[i - a.len()]);
        }
    }
    assert(seq![attempt][0] == attempt);
}

/// What an attempt shows by its effect: a refusal is an obstacle and a failure,
/// a failed shell command is a failure that was observed, and only an attempt
/// that was confirmed proves anything.
pub proof fn lemma_effect_of_an_attempt(attempt: AttemptView, part: ActionView, whole: ActionView)
    ensures
        attempt.effect == Some("refused"@) ==> attempt_passes(attempt, AttemptTest::Blocked)
            && attempt_passes(attempt, AttemptTest::FailedOrRefused),
        attempt.effect == Some("failed"@) ==> attempt_passes(attempt, AttemptTest::FailedOrRefused),
        attempt.effect == Some("failed"@) && attempt.action == Some(action_json(whole)) && within(
            part,
            whole,
        ) && part is ShellExec ==> attempt_passes(attempt, AttemptTest::FailedShell),
        attempt.effect != Some("failed"@) ==> !attempt_passes(attempt, AttemptTest::FailedShell),
        attempt.action is None ==> !attempt_passes(attempt, AttemptTest::FailedShell)
            && !attempt_passes(attempt, AttemptTest::AegisUsed) && !attempt_passes(
            attempt,
            AttemptTest::ConfirmedWithEvidence,
        ) && !attempt_passes(attempt, AttemptTest::AwaitedVerification),
        attempt.effect != Some("confirmed"@) ==> !attempt_passes(
            attempt,
            AttemptTest::ConfirmedWithEvidence,
        ) && !attempt_passes(attempt, AttemptTest::AegisConfirmedWithEvidence),
        attempt.effect != Some("failed"@) && attempt.effect != Some("refused"@) ==> !attempt_passes(
            attempt,
            AttemptTest::FailedOrRefused,
        ),
        attempt.evidence is None ==> !attempt_passes(attempt, AttemptTest::ConfirmedWithEvidence)
            && !attempt_passes(attempt, AttemptTest::AwaitedVerification) && !attempt_passes(
            attempt,
            AttemptTest::AegisFoundNothing,
        ),
        attempt.effect is None ==> !attempt_passes(attempt, AttemptTest::AegisUsed)
            && !attempt_passes(attempt, AttemptTest::AwaitedVerification),
{
    if within(part, whole) {
        lemma_written_part_is_found(part, whole);
    }
}

/// A confirmed shell command proves its result by output that is not blank, and
/// a confirmed action of Aegis only by reading a page that says something.
pub proof fn lemma_result_needs_a_readback(
    attempt: AttemptView,
    whole: ActionView,
    evidence: JsonView,
)
    requires
        attempt.effect == Some("confirmed"@),
        attempt.action == Some(action_json(whole)),
        attempt.evidence == Some(evidence),
    ensures
        whole is ShellExec ==> (attempt_passes(attempt, AttemptTest::ConfirmedWithEvidence)
            <==> shows_readback(evidence)),
        whole is ShellExec ==> !attempt_passes(attempt, AttemptTest::AegisConfirmedWithEvidence),
        whole is Aegis && !shows_content(evidence) ==> !attempt_passes(
            attempt,
            AttemptTest::ConfirmedWithEvidence,
        ),
        whole is Aegis && any_step(action_json(whole), StepTest::AegisObservation) && shows_content(
            evidence,
        ) ==> attempt_passes(attempt, AttemptTest::ConfirmedWithEvidence) && attempt_passes(
            attempt,
            AttemptTest::AegisConfirmedWithEvidence,
        ) && attempt_passes(attempt, AttemptTest::AegisUsed),
        whole is ClipboardRead ==> (attempt_passes(attempt, AttemptTest::ConfirmedWithEvidence)
            <==> has_message(evidence)),
        whole is KeyType || whole is KeyPaste ==> (attempt_passes(
            attempt,
            AttemptTest::AwaitedVerification,
        ) <==> was_reobserved(evidence)),
{
    lemma_kinds_differ();
    match whole {
        ActionView::ShellExec { command, timeout_ms } => {
            lemma_action_is_written(command, timeout_ms, Seq::empty(), Seq::empty(), 0);
        },
        ActionView::Aegis { args, timeout_ms } => {
            lemma_action_is_written(Seq::empty(), timeout_ms, args, Seq::empty(), 0);
        },
        ActionView::KeyType { text } => {
            lemma_action_is_written(text, 0, Seq::empty(), Seq::empty(), 0);
        },
        ActionView::KeyPaste { text } => {
            lemma_action_is_written(text, 0, Seq::empty(), Seq::empty(), 0);
        },
        _ => {},
    }
}

/// A claim of a result, of a failure or of nothing found is borne out exactly by
/// an attempt that shows it; without attempts nothing is.
pub proof fn lemma_claims_need_attempts(
    response: Seq<char>,
    attempts: Seq<AttemptView>,
    i: int,
)
    ensures
        attempts.len() == 0 ==> !supports_result(response, attempts) && !supports_failure(
            response,
            attempts,
        ) && !supports_aegis_final(response, attempts),
        0 <= i < attempts.len() && claims_result(response) && attempt_passes(
            attempts[i],
            AttemptTest::ConfirmedWithEvidence,
        ) ==> supports_result(response, attempts),
        0 <= i < attempts.len() && claims_result(response) && attempt_passes(
            attempts[i],
            AttemptTest::AwaitedVerification,
        ) ==> supports_result(response, attempts),
        0 <= i < attempts.len() && claims_failure(response) && (attempts[i].effect == Some(
            "failed"@,
        ) || attempts[i].effect == Some("refused"@)) ==> supports_failure(response, attempts),
        (forall|k: int|
            0 <= k < attempts.len() ==> (#[trigger] attempts[k]).effect != Some("failed"@)
                && attempts[k].effect != Some("refused"@)) ==> !supports_failure(response, attempts),
        (forall|k: int|
            0 <= k < attempts.len() ==> (#[trigger] attempts[k]).action is None)
            ==> !supports_result(response, attempts) && !supports_aegis_final(response, attempts),
        !claims_result(response) ==> !supports_result(response, attempts),
        !claims_failure(response) ==> !supports_failure(response, attempts),
        claims_not_found(response) && supports_aegis_final(response, attempts) ==> any_attempt(
            attempts,
            AttemptTest::AegisFoundNothing,
        ),
        claims_result(response) && !claims_not_found(response) && supports_aegis_final(
            response,
            attempts,
        ) ==> any_attempt(attempts, AttemptTest::AegisConfirmedWithEvidence),
        claims_failure(response) && !claims_result(response) && !claims_not_found(response)
            ==> supports_aegis_final(response, attempts) == (supports_failure(response, attempts)
            && any_attempt(attempts, AttemptTest::AegisUsed)),
{
}

/// An effect that the evidence names is the effect; else a final reply after
/// other attempts has the one that those bear out, and an action none that is
/// known.
pub proof fn lemma_named_effect_is_taken(
    turn: TurnView,
    attempts: Seq<AttemptView>,
    effect: Seq<char>,
)
    ensures
        turn.evidence matches Some(evidence) && text_field(evidence, "effect"@) == Some(effect)
            ==> observed_effect(turn, attempts) == Some(effect) && final_effect(turn, attempts)
            == effect,
        turn.evidence is None && turn.action is Some ==> observed_effect(turn, attempts) is None
            && final_effect(turn, attempts) == "unverifiable"@,
        turn.evidence is None && turn.action is None && attempts.len() == 0 ==> observed_effect(
            turn,
            attempts,
        ) is None && final_effect(turn, attempts) == "stopped"@,
        turn.evidence is None && turn.action is None && attempts.len() > 0 ==> observed_effect(
            turn,
            attempts,
        ) == Some(final_effect(turn, attempts)),
        turn.evidence is None && turn.action is None && supports_result(turn.response, attempts)
            ==> final_effect(turn, attempts) == "confirmed"@,
        turn.evidence is None && turn.action is None && !supports_result(turn.response, attempts)
            && supports_failure(turn.response, attempts) ==> final_effect(turn, attempts)
            == "failed"@,
        turn.evidence is None && turn.action is None && !supports_result(turn.response, attempts)
            && !supports_failure(turn.response, attempts) ==> final_effect(turn, attempts)
            == "stopped"@,
{
    lemma_claims_need_attempts(turn.response, attempts, 0);
}

/// A completed turn is recorded once: one that the last attempt records already
/// adds none, any other adds itself as the last one.
pub proof fn lemma_turn_is_recorded_once(turn: TurnView, attempts: Seq<AttemptView>)
    ensures
        attempts.len() > 0 && attempts.last().response == turn.response && attempts.last().action
            == turn.action && attempts.last().evidence == turn.evidence ==> all_attempts(
            turn,
            attempts,
        ) == attempts,
        attempts.len() == 0 ==> all_attempts(turn, attempts).len() == 1,
        attempts.len() > 0 && attempts.last().response != turn.response && effect_of(turn.evidence)
            is None ==> all_attempts(turn, attempts).len() == attempts.len() + 1 || text_field(
            turn.evidence->0,
            "reason"@,
        ) == Some("long_range_goal_reached_agent_loop_budget"@),
        all_attempts(turn, attempts).len() == attempts.len() + 1 ==> ({
            let added = all_attempts(turn, attempts).last();
            added.response == turn.response && added.action == turn.action && added.evidence
                == turn.evidence && added.effect == Some(final_effect(turn, attempts))
        }),
        all_attempts(turn, attempts).len() > 0,
{
    if attempts.len() > 0 {
        if let Some(action) = turn.action {
            lemma_same_as_itself(action);
        }
        if let Some(evidence) = turn.evidence {
            lemma_same_as_itself(evidence);
        }
    }
}

/// The record of a loop of more than one attempt tells the effect, the number of
/// attempts and each of them; the reply and the action stay. Without earlier
/// attempts the turn stays as it is.
pub proof fn lemma_record_tells_the_attempts(turn: TurnView, attempts: Seq<AttemptView>, i: int)
    ensures
        attempts.len() == 0 ==> with_loop_evidence(turn, attempts) == turn,
        with_loop_evidence(turn, attempts).response == turn.response,
        with_loop_evidence(turn, attempts).action == turn.action,
        attempts.len() > 0 ==> ({
            let record = with_loop_evidence(turn, attempts).evidence->0;
            let all = all_attempts(turn, attempts);
            &&& text_field(record, "effect"@) == Some(final_effect(turn, attempts))
            &&& field(record, "final_evidence"@) == Some(or_null(turn.evidence))
            &&& number_field(record, "attempt_count"@) == Some(all.len() as u64)
            &&& array_field(record, "attempts"@) matches Some(items) && items.len() == all.len()
                && (0 <= i < all.len() ==> items[i] == attempt_json(all[i]))
        }),
{
    reveal_strlit("effect");
    reveal_strlit("final_evidence");
    reveal_strlit("attempt_count");
    reveal_strlit("attempts");
    assert("effect"@.len() == 6 && "final_evidence"@.len() == 14 && "attempt_count"@.len() == 13
        && "attempts"@.len() == 8);
}

/// An attempt is told with its number, its reply, its action, its effect and its
/// evidence.
pub proof fn lemma_attempt_is_told(attempt: AttemptView)
    ensures
        number_field(attempt_json(attempt), "attempt_index"@) == Some(
            attempt.attempt_index as u64,
        ),
        text_field(attempt_json(attempt), "response"@) == Some(attempt.response),
        field(attempt_json(attempt), "action"@) == Some(or_null(attempt.action)),
        text_field(attempt_json(attempt), "effect"@) == attempt.effect,
        field(attempt_json(attempt), "evidence"@) == Some(or_null(attempt.evidence)),
{
    reveal_strlit("attempt_index");
    reveal_strlit("response");
    reveal_strlit("action");
    reveal_strlit("effect");
    reveal_strlit("evidence");
    assert("attempt_index"@.len() == 13);
    assert("response"@[0] == 'r' && "evidence"@[0] == 'e' && "response"@.len() == 8
        && "evidence"@.len() == 8);
    assert("action"@[0] == 'a' && "effect"@[0] == 'e' && "action"@.len() == 6 && "effect"@.len()
        == 6);
}

/// A plan without an action gives up long work unless it promises more, asks the
/// user, or reports a result, a failure or an obstacle that the attempts bear
/// out; no other plan gives up.
pub proof fn lemma_long_work_is_not_given_up(
    transcript: Seq<char>,
    response: Seq<char>,
    action: Option<JsonView>,
    attempts: Seq<AttemptView>,
)
    ensures
        action is Some ==> !gives_up(transcript, response, action, attempts),
        !wants_long_work(transcript) ==> !gives_up(transcript, response, action, attempts),
        wants_clarification(response) ==> !gives_up(transcript, response, action, attempts),
        attempts.len() > 0 && supports_result(response, attempts) ==> !gives_up(
            transcript,
            response,
            action,
            attempts,
        ),
        attempts.len() > 0 && supports_failure(response, attempts) ==> !gives_up(
            transcript,
            response,
            action,
            attempts,
        ),
        tells_blocker(response) && any_attempt(attempts, AttemptTest::Blocked) ==> !gives_up(
            transcript,
            response,
            action,
            attempts,
        ),
        action is None && wants_long_work(transcript) && attempts.len() == 0 && !claims_pending(
            response,
        ) && !wants_clarification(response) ==> gives_up(transcript, response, action, attempts),
        action is None && wants_long_work(transcript) && !claims_pending(response)
            && !wants_clarification(response) && !tells_blocker(response) && !claims_result(response)
            && !claims_failure(response) ==> gives_up(transcript, response, action, attempts),
{
}

/// A plan finishes a turn only without an action and only on what earlier
/// attempts show.
pub proof fn lemma_finish_needs_attempts(
    response: Seq<char>,
    action: Option<JsonView>,
    attempts: Seq<AttemptView>,
)
    ensures
        action is Some ==> !finishes(response, action, attempts),
        attempts.len() == 0 ==> !finishes(response, action, attempts),
        action is None ==> finishes(response, action, attempts) == (supports_result(
            response,
            attempts,
        ) || supports_failure(response, attempts)),
{
    lemma_claims_need_attempts(response, attempts, 0);
}

/// Once a shell command failed, or where no failure is to be observed first, no
/// plan hides one. Before that, a command that looks for something, repairs and
/// goes on in one line hides it, and so does a sequence of several actions with
/// such a command in it; a single action that is no shell command hides none.
pub proof fn lemma_failure_is_observed_first(
    transcript: Seq<char>,
    actions: Seq<ActionView>,
    delay: u64,
    command: Seq<char>,
    timeout_ms: u64,
    attempts: Seq<AttemptView>,
)
    ensures
        ({
            let shell = ActionView::ShellExec { command, timeout_ms };
            let whole = ActionView::Sequence { actions, inter_action_delay_ms: delay };
            &&& any_attempt(attempts, AttemptTest::FailedShell) || !wants_failure_first(transcript)
                ==> !hides_failure(transcript, shell, attempts) && !hides_failure(
                transcript,
                whole,
                attempts,
            )
            &&& !any_attempt(attempts, AttemptTest::FailedShell) && wants_failure_first(transcript)
                ==> (hides_failure(transcript, shell, attempts) <==> probes(command) && repairs(
                command,
            ) && continues(command))
            &&& !any_attempt(attempts, AttemptTest::FailedShell) && wants_failure_first(transcript)
                ==> (hides_failure(transcript, whole, attempts) <==> actions.len() > 1 && any_part(
                whole,
                PartTest::FailureOrRecovery,
            ))
        }),
{
}

/// A turn relabels an attempt only if it is the same action with the same
/// evidence, ended by the budget.
pub proof fn lemma_relabelled_attempt_is_the_same(turn: TurnView, attempt: AttemptView)
    requires
        relabels(turn, attempt),
    ensures
        same_opt_json(turn.action, attempt.action),
        turn.evidence matches Some(evidence) && text_field(evidence, "reason"@) == Some(
            "long_range_goal_reached_agent_loop_budget"@,
        ) && same_opt_json(field(evidence, "last_evidence"@), attempt.evidence),
{
}

/// A turn whose action differs from that of the last attempt is not recorded yet.
pub proof fn lemma_another_action_is_not_recorded(turn: TurnView, attempts: Seq<AttemptView>)
    requires
        attempts.len() > 0,
        !same_opt_json(turn.action, attempts.last().action),
        !same_opt_json(attempts.last().action, turn.action),
    ensures
        !is_recorded(turn, attempts),
{
}

/// Aegis was used by every attempt with an Aegis action that had any of its five
/// effects, and by no other.
pub proof fn lemma_aegis_was_used(attempt: AttemptView, action: JsonView)
    requires
        attempt.action == Some(action),
        any_step(action, StepTest::Aegis),
    ensures
        attempt.effect == Some("confirmed"@) ==> attempt_passes(attempt, AttemptTest::AegisUsed),
        attempt.effect == Some("partial"@) ==> attempt_passes(attempt, AttemptTest::AegisUsed),
        attempt.effect == Some("unverifiable"@) ==> attempt_passes(attempt, AttemptTest::AegisUsed),
        attempt.effect == Some("refused"@) ==> attempt_passes(attempt, AttemptTest::AegisUsed),
        attempt.effect == Some("failed"@) ==> attempt_passes(attempt, AttemptTest::AegisUsed),
        attempt.effect is None ==> !attempt_passes(attempt, AttemptTest::AegisUsed),
{
}

/// A reply that announces more work, asks the user, names an obstacle that was
/// met, or comes with an action does not give the work up.
pub proof fn lemma_work_is_not_given_up(
    transcript: Seq<char>,
    response: Seq<char>,
    action: Option<JsonView>,
    attempts: Seq<AttemptView>,
)
    ensures
        claims_pending(response) ==> !gives_up(transcript, response, action, attempts),
        wants_clarification(response) ==> !gives_up(transcript, response, action, attempts),
        is_blocked(response, attempts) ==> !gives_up(transcript, response, action, attempts),
        finishes(response, action, attempts) ==> !gives_up(transcript, response, action, attempts),
        action is Some ==> !gives_up(transcript, response, action, attempts),
        !wants_long_work(transcript) ==> !gives_up(transcript, response, action, attempts),
{
}

/// The completed turn is recorded behind the attempts before it, under the next
/// number and with the effect that its evidence names.
pub proof fn lemma_completed_turn_comes_last(
    turn: TurnView,
    attempts: Seq<AttemptView>,
    effect: Seq<char>,
)
    requires
        !is_recorded(turn, attempts),
        attempts.len() < usize::MAX,
    ensures
        ({
            let all = all_attempts(turn, attempts);
            &&& all.drop_last() == attempts
            &&& all.last().attempt_index == attempts.len() + 1
            &&& all.last().response == turn.response
            &&& all.last().action == turn.action
            &&& all.last().evidence == turn.evidence
            &&& effect_of(turn.evidence) == Some(effect) ==> all.last().effect == Some(effect)
            &&& all.last().effect is Some
        }),
{
    assert(all_attempts(turn, attempts).drop_last() =~= attempts);
}

/// A second look is added to the evidence of the last attempt alone.
pub proof fn lemma_second_look_is_for_the_last(
    attempts: Seq<AttemptView>,
    last: AttemptView,
    observation: JsonView,
)
    ensures
        ({
            let seen = observe_last(attempts.push(last), observation);
            &&& seen.drop_last() == attempts
            &&& seen.last().evidence == Some(with_observation(last.evidence, observation))
            &&& seen.last().attempt_index == last.attempt_index
            &&& seen.last().response == last.response
            &&& seen.last().action == last.action
            &&& seen.last().effect == last.effect
        }),
        observe_last(Seq::empty(), observation) == Seq::<AttemptView>::empty(),
{
    assert(observe_last(attempts.push(last), observation).drop_last() =~= attempts);
}

/// A reply idles only if it announces work and brings no action for it.
pub proof fn lemma_announced_work_needs_an_action(response: Seq<char>, action: JsonView)
    ensures
        claims_pending(response) ==> idles(response, None),
        !claims_pending(response) ==> !idles(response, None),
        !idles(response, Some(action)),
{
}

} // verus!
