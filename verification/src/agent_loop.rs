//! The agent loop: the planner proposes, the loop decides. It rejects plans
//! that would not help, judges what an action came to, and knows when a turn
//! has ended. The planner, the daemon and the screen are outside; what they
//! answer comes in as plain values.

use vstd::prelude::*;

use crate::action::{
    action_json, any_part, every_part, lemma_found_part_is_there, lemma_part_is_found, opt_action,
    within, ActionView, InputAction, PartTest,
};
use crate::attempt::{
    action_null_finishes_after_prior_attempts, action_null_plan_claims_pending_work,
    action_null_stops_long_range_without_evidence, action_repeats_confirmed_attempt,
    action_repeats_text_entry_attempt, all_attempts, attach_loop_evidence,
    attach_verification_observation_to_last_attempt, attempt_views,
    consecutive_planning_infrastructure_errors, effect_of, failure_boundary_plan_collapses_recovery,
    finishes, gives_up, hides_failure, idles, lemma_new_text_is_not_rejected, loop_attempt_count,
    observe_last, observed_effect, observed_turn_effect, outages,
    prior_attempts_support_explicit_aegis_final, repeats_confirmed, repeats_text,
    supports_aegis_final, with_loop_evidence, AttemptView, CompletedAssistantTurn,
    PlanAttemptContext, TurnView,
};
use crate::budget::AgentLoopBudget;
use crate::evidence::{
    aegis_readback_missing_evidence, last_stdout, no_readback_note, observation_json,
    open_only_incomplete_evidence, open_only_note, shell_expected_stdout_missing_evidence,
    shell_readback_missing_evidence, trimmed_opt, unread_page_note, wrong_output_note,
};
use crate::failure::{
    is_account_failure, is_empty_plan, is_malformed_plan, is_outage,
    planning_error_is_empty_content, planning_error_is_invalid_action_json,
    planning_error_is_provider_account_failure, planning_error_is_retryable_infrastructure,
};
use crate::goal::{
    aegis_readback_missing_for_goal, apply_verified_readback_reply, goes_on,
    lemma_only_confirmed_turns_lack_output, lemma_other_replies_stay,
    lemma_unfinished_turns_are_followed, mark_long_range_budget_exhausted_if_needed, marked_ran_out,
    only_opened, open_only_incomplete_for_goal, output_differs, output_missing, page_missing,
    replans, shell_expected_stdout_missing_for_goal, shell_readback_missing_for_goal,
    should_continue_long_range_after_verified_action, should_replan_after_turn, with_readback,
};
use crate::json::{
    empty_object, field_is, nat_view, opt_view, text_field, text_view, with_field, Json, JsonView,
};
use crate::plan::{
    action_satisfies_text_entry_request, dedupe_redundant_sequence_actions,
    input_action_is_open_only_setup, input_action_uses_only_aegis_backend, opt_deduped, opt_plan,
    opt_removed, repair_new_note_text_entry_plan, repaired, PlanView, PlannedTurn,
};
use crate::progress::{
    account_failure_reply, missing_key_reply, planning_credentials_missing_message_with_attempts,
    planning_provider_account_failure_message_with_attempts, step_label, voice_step_label,
};
use crate::response::{
    claims_failure, claims_pending, claims_result, final_response_claims_verified_result,
    final_response_reports_prior_failure, planner_response_claims_pending_work, wants_clarification,
};
use crate::step::{
    action_requires_visible_reobserve_before_finish, any_step, enters, lemma_written_part_is_found,
    StepTest,
};
use crate::text::{decimal, decimal_of, opt_text, texts};
use crate::transcript::{
    expected_stdout, transcript_explicitly_requests_aegis, transcript_requests_long_range_work,
    transcript_requests_text_entry, wants_aegis, wants_failure_first, wants_long_work,
    wants_readback, wants_text,
};

verus! {

/// After so many outages of the planner in a row the turn ends.
pub const MAX_CONSECUTIVE_PLANNER_INFRASTRUCTURE_ERRORS: usize = 3;

/// A turn in progress: what the user asked for, how many attempts it may take,
/// and what was attempted so far.
#[derive(Debug)]
pub struct AgentLoop {
    pub transcript: String,
    pub budget: AgentLoopBudget,
    pub attempts: Vec<PlanAttemptContext>,
}

/// What a turn in progress means.
#[verifier::ext_equal]
pub struct LoopView {
    pub transcript: Seq<char>,
    pub budget: AgentLoopBudget,
    pub attempts: Seq<AttemptView>,
}

impl View for AgentLoop {
    type V = LoopView;

    open spec fn view(&self) -> LoopView {
        LoopView {
            transcript: self.transcript@,
            budget: self.budget,
            attempts: attempt_views(self.attempts@),
        }
    }
}

impl LoopView {
    /// The number of the attempt that is under way.
    pub open spec fn index(self) -> int {
        self.attempts.len() as int + 1
    }

    /// The attempts are numbered from one on.
    pub open spec fn is_numbered(self) -> bool {
        forall|i: int|
            0 <= i < self.attempts.len() ==> (#[trigger] self.attempts[i]).attempt_index == i + 1
    }

    /// There is room for another attempt and its number.
    pub open spec fn has_room(self) -> bool {
        self.attempts.len() + 2 <= usize::MAX
    }

    /// The loop with one attempt more.
    pub open spec fn with_attempt(
        self,
        response: Seq<char>,
        action: Option<JsonView>,
        effect: Option<Seq<char>>,
        evidence: Option<JsonView>,
    ) -> LoopView {
        LoopView {
            attempts: self.attempts.push(
                AttemptView {
                    attempt_index: self.index() as usize,
                    response,
                    action,
                    effect,
                    evidence,
                },
            ),
            ..self
        }
    }

    /// Another attempt may follow the one that is under way.
    pub open spec fn may_go_on(self) -> bool {
        self.budget.allows_more(self.index())
    }
}

/// An object that names an effect and its reason.
pub open spec fn verdict(effect: Seq<char>, reason: Seq<char>) -> JsonView {
    with_field(
        with_field(empty_object(), "effect"@, text_view(effect)),
        "reason"@,
        text_view(reason),
    )
}

fn verdict_json(effect: &str, reason: &str) -> (value: Json)
    ensures
        value@ == verdict(effect@, reason@),
{
    let mut value = Json::object();
    value.set("effect", Json::text(effect));
    value.set("reason", Json::text(reason));
    value
}

/// What becomes of an error of the planner.
#[derive(Debug)]
pub enum PlanningFailure {
    /// A plan that needs no planner takes the place of the answer.
    Recovered(PlannedTurn),
    /// The planner is asked again.
    Retry,
    /// The turn ends.
    Stop(CompletedAssistantTurn),
    /// The error is the result of the turn.
    Fatal,
}

pub enum PlanningFailureView {
    Recovered(PlanView),
    Retry,
    Stop(TurnView),
    Fatal,
}

impl View for PlanningFailure {
    type V = PlanningFailureView;

    open spec fn view(&self) -> PlanningFailureView {
        match self {
            PlanningFailure::Recovered(plan) => PlanningFailureView::Recovered(plan@),
            PlanningFailure::Retry => PlanningFailureView::Retry,
            PlanningFailure::Stop(turn) => PlanningFailureView::Stop(turn@),
            PlanningFailure::Fatal => PlanningFailureView::Fatal,
        }
    }
}

pub open spec fn is_unusable(error: Seq<char>) -> bool {
    is_empty_plan(error) || is_malformed_plan(error)
}

pub open spec fn planning_reason(error: Seq<char>) -> Seq<char> {
    if is_outage(error) {
        "planning_infrastructure_error"@
    } else {
        "planning_error"@
    }
}

/// The turn that ends because the planner could not be reached.
pub open spec fn outage_turn(error: Seq<char>, count: nat) -> TurnView {
    TurnView {
        response: "Planner service stayed unavailable while trying to continue the task."@,
        action: None,
        evidence: Some(
            with_field(
                with_field(
                    verdict("failed"@, "planning_infrastructure_error"@),
                    "attempt_count"@,
                    nat_view(count as u64),
                ),
                "error"@,
                text_view(error),
            ),
        ),
    }
}

/// The turn that ends because no attempt is left for the planner.
pub open spec fn unusable_turn(error: Seq<char>) -> TurnView {
    TurnView {
        response: "Planner output could not be used before the loop budget ended."@,
        action: None,
        evidence: Some(
            with_field(verdict("partial"@, "planning_error"@), "error"@, text_view(error)),
        ),
    }
}

/// The turn that ends because the provider refuses the account.
pub open spec fn account_turn(state: LoopView, error: Seq<char>) -> TurnView {
    TurnView {
        response: account_failure_reply(error, state.attempts),
        action: None,
        evidence: Some(
            with_field(
                with_field(
                    verdict("failed"@, "planning_provider_account_failure"@),
                    "attempt_count"@,
                    nat_view(state.index() as u64),
                ),
                "error"@,
                text_view(error),
            ),
        ),
    }
}

/// The loop after an answer of the planner that could not be used.
pub open spec fn after_unusable(state: LoopView, error: Seq<char>) -> LoopView {
    state.with_attempt(
        "Planner output could not be used."@,
        None,
        Some("failed"@),
        Some(
            with_field(verdict("failed"@, planning_reason(error)), "error"@, text_view(error)),
        ),
    )
}

/// What becomes of an error of the planner, and of the loop.
pub open spec fn on_planning_error(
    state: LoopView,
    error: Seq<char>,
    bootstrap: Option<PlanView>,
) -> (LoopView, PlanningFailureView) {
    if is_unusable(error) || is_outage(error) {
        if is_unusable(error) && state.attempts.len() == 0 && bootstrap is Some {
            (state, PlanningFailureView::Recovered(bootstrap->0))
        } else if state.may_go_on() {
            let count = outages(state.attempts) + 1;
            (
                after_unusable(state, error),
                if is_outage(error) && count >= MAX_CONSECUTIVE_PLANNER_INFRASTRUCTURE_ERRORS {
                    PlanningFailureView::Stop(outage_turn(error, count))
                } else {
                    PlanningFailureView::Retry
                },
            )
        } else {
            (state, PlanningFailureView::Stop(unusable_turn(error)))
        }
    } else if is_account_failure(error) {
        (state, PlanningFailureView::Stop(account_turn(state, error)))
    } else {
        (state, PlanningFailureView::Fatal)
    }
}

/// Whether a plan that needs no planner may take the place of an answer.
pub fn planning_error_can_use_bootstrap_recovery(
    empty_or_invalid_planner_output: bool,
    attempts: &Vec<PlanAttemptContext>,
) -> (found: bool)
    ensures
        found == (empty_or_invalid_planner_output && attempts@.len() == 0),
{
    empty_or_invalid_planner_output && attempts.len() == 0
}

/// Why a plan is not carried out.
#[derive(Clone, Copy, Debug, PartialEq, Eq, Structural)]
pub enum Rejection {
    NotAegis,
    AegisFinalWithoutEvidence,
    PendingWithoutAction,
    LongWorkGivenUp,
    FailureHidden,
    StepRepeated,
    TextRepeated,
    NoText,
}

impl Rejection {
    pub open spec fn spec_reason(self) -> Seq<char> {
        match self {
            Rejection::NotAegis => "explicit_aegis_request_requires_aegis_action"@,
            Rejection::AegisFinalWithoutEvidence => "explicit_aegis_final_without_aegis_evidence"@,
            Rejection::PendingWithoutAction => "action_null_plan_claimed_pending_work"@,
            Rejection::LongWorkGivenUp => "action_null_long_range_without_evidence"@,
            Rejection::FailureHidden => "failure_boundary_collapsed_into_single_action"@,
            Rejection::StepRepeated => "repeated_confirmed_long_range_action"@,
            Rejection::TextRepeated => "repeated_text_entry_action"@,
            Rejection::NoText => "text_request_without_text_entry_action"@,
        }
    }

    /// The reason that is recorded.
    pub fn reason(self) -> (reason: &'static str)
        ensures
            reason@ == self.spec_reason(),
    {
        match self {
            Rejection::NotAegis => "explicit_aegis_request_requires_aegis_action",
            Rejection::AegisFinalWithoutEvidence => "explicit_aegis_final_without_aegis_evidence",
            Rejection::PendingWithoutAction => "action_null_plan_claimed_pending_work",
            Rejection::LongWorkGivenUp => "action_null_long_range_without_evidence",
            Rejection::FailureHidden => "failure_boundary_collapsed_into_single_action",
            Rejection::StepRepeated => "repeated_confirmed_long_range_action",
            Rejection::TextRepeated => "repeated_text_entry_action",
            Rejection::NoText => "text_request_without_text_entry_action",
        }
    }

    pub open spec fn spec_hint(self) -> Option<Seq<char>> {
        match self {
            Rejection::NotAegis => Some(
                "The user explicitly requested Aegis. Use an aegis action or a sequence containing only aegis actions; do not use shell_exec, local files, visible UI, mouse, keyboard, or clipboard actions for this turn."@,
            ),
            Rejection::AegisFinalWithoutEvidence => Some(
                "Finish an explicit Aegis request only after prior Aegis evidence proves the result or proves the Aegis failure."@,
            ),
            Rejection::PendingWithoutAction => Some(
                "Return the next tool action needed to complete or verify the user's request, not a progress description."@,
            ),
            Rejection::LongWorkGivenUp => Some(
                "Long-range work needs a concrete next action or a final answer backed by prior evidence. Use an available tool action, or ask for clarification only when the goal is genuinely ambiguous or blocked."@,
            ),
            Rejection::FailureHidden => Some(
                "The user asked to observe a failure before recovery. Return only the initial failing action next; do not suppress the failure or combine recovery into the same shell command or sequence."@,
            ),
            Rejection::StepRepeated => Some(
                "The same action already completed partial progress. Use the fresh observation to choose the next different action or final verified answer."@,
            ),
            Rejection::TextRepeated => Some(
                "The text-entry side effect already ran in this turn. Use the fresh observation to verify and final-answer, or choose a different non-duplicating action."@,
            ),
            Rejection::NoText => None,
        }
    }

    /// What the planner is told to do instead.
    pub fn hint(self) -> (hint: Option<&'static str>)
        ensures
            match hint {
                Some(hint) => self.spec_hint() == Some(hint@),
                None => self.spec_hint() is None,
            },
    {
        match self {
            Rejection::NotAegis => Some(
                "The user explicitly requested Aegis. Use an aegis action or a sequence containing only aegis actions; do not use shell_exec, local files, visible UI, mouse, keyboard, or clipboard actions for this turn.",
            ),
            Rejection::AegisFinalWithoutEvidence => Some(
                "Finish an explicit Aegis request only after prior Aegis evidence proves the result or proves the Aegis failure.",
            ),
            Rejection::PendingWithoutAction => Some(
                "Return the next tool action needed to complete or verify the user's request, not a progress description.",
            ),
            Rejection::LongWorkGivenUp => Some(
                "Long-range work needs a concrete next action or a final answer backed by prior evidence. Use an available tool action, or ask for clarification only when the goal is genuinely ambiguous or blocked.",
            ),
            Rejection::FailureHidden => Some(
                "The user asked to observe a failure before recovery. Return only the initial failing action next; do not suppress the failure or combine recovery into the same shell command or sequence.",
            ),
            Rejection::StepRepeated => Some(
                "The same action already completed partial progress. Use the fresh observation to choose the next different action or final verified answer.",
            ),
            Rejection::TextRepeated => Some(
                "The text-entry side effect already ran in this turn. Use the fresh observation to verify and final-answer, or choose a different non-duplicating action.",
            ),
            Rejection::NoText => None,
        }
    }

    pub open spec fn spec_abort_message(self) -> Seq<char> {
        match self {
            Rejection::NotAegis => "planning model selected a non-Aegis action for an explicit Aegis request"@,
            Rejection::AegisFinalWithoutEvidence => "planning model tried to finish an explicit Aegis request without Aegis evidence"@,
            Rejection::PendingWithoutAction => "planning model returned an incomplete action-null long-range plan"@,
            Rejection::LongWorkGivenUp => "planning model stopped long-range work without evidence or a real blocker"@,
            Rejection::FailureHidden => "planning model collapsed a required failure observation and recovery into one action"@,
            Rejection::StepRepeated => "planning model repeated an already completed long-range action"@,
            Rejection::TextRepeated => "planning model repeated a text-entry action in the same turn"@,
            Rejection::NoText => "planning model did not include a text-entry action for a text-writing command"@,
        }
    }

    /// The error of a turn that ends with this rejection.
    pub fn abort_message(self) -> (message: &'static str)
        ensures
            message@ == self.spec_abort_message(),
    {
        match self {
            Rejection::NotAegis => "planning model selected a non-Aegis action for an explicit Aegis request",
            Rejection::AegisFinalWithoutEvidence => "planning model tried to finish an explicit Aegis request without Aegis evidence",
            Rejection::PendingWithoutAction => "planning model returned an incomplete action-null long-range plan",
            Rejection::LongWorkGivenUp => "planning model stopped long-range work without evidence or a real blocker",
            Rejection::FailureHidden => "planning model collapsed a required failure observation and recovery into one action",
            Rejection::StepRepeated => "planning model repeated an already completed long-range action",
            Rejection::TextRepeated => "planning model repeated a text-entry action in the same turn",
            Rejection::NoText => "planning model did not include a text-entry action for a text-writing command",
        }
    }

    pub open spec fn evidence(self) -> JsonView {
        let base = verdict("suspected_noop"@, self.spec_reason());
        match self.spec_hint() {
            Some(hint) => with_field(base, "repair_hint"@, text_view(hint)),
            None => base,
        }
    }

    fn to_evidence(self) -> (value: Json)
        ensures
            value@ == self.evidence(),
    {
        let mut value = verdict_json("suspected_noop", self.reason());
        if let Some(hint) = self.hint() {
            value.set("repair_hint", Json::text(hint));
        }
        value
    }
}

/// The JSON object of an optional action.
pub open spec fn opt_action_json(action: Option<ActionView>) -> Option<JsonView> {
    match action {
        Some(action) => Some(action_json(action)),
        None => None,
    }
}

/// The planner only prepares long work, or only talks of it.
pub open spec fn stalls(transcript: Seq<char>, plan: PlanView) -> bool {
    wants_long_work(transcript) && match plan.action {
        Some(action) => every_part(action, PartTest::OpenApp),
        None => claims_pending(plan.response),
    }
}

/// The plan that is considered: where the planner stalls, the one that starts
/// the work at once; with new notes really created and nothing done twice.
pub open spec fn considered(
    transcript: Seq<char>,
    plan: PlanView,
    bootstrap: Option<PlanView>,
) -> PlanView {
    let chosen = if stalls(transcript, plan) && bootstrap is Some {
        bootstrap->0
    } else {
        plan
    };
    PlanView {
        response: chosen.response,
        action: opt_deduped(repaired(transcript, chosen.action)),
    }
}

/// Why a plan is not carried out, if it is not: the first reason that holds.
pub open spec fn rejection(state: LoopView, plan: PlanView) -> Option<Rejection> {
    let json = opt_action_json(plan.action);
    if wants_aegis(state.transcript) && (plan.action matches Some(action) && !every_part(
        action,
        PartTest::Aegis,
    )) {
        Some(Rejection::NotAegis)
    } else if wants_aegis(state.transcript) && plan.action is None && (claims_result(plan.response)
        || claims_failure(plan.response)) && !supports_aegis_final(plan.response, state.attempts) {
        Some(Rejection::AegisFinalWithoutEvidence)
    } else if idles(plan.response, json) {
        Some(Rejection::PendingWithoutAction)
    } else if gives_up(state.transcript, plan.response, json, state.attempts) {
        Some(Rejection::LongWorkGivenUp)
    } else if plan.action matches Some(action) && hides_failure(
        state.transcript,
        action,
        state.attempts,
    ) {
        Some(Rejection::FailureHidden)
    } else if wants_long_work(state.transcript) && (json matches Some(json) && repeats_confirmed(
        state.attempts,
        json,
    )) {
        Some(Rejection::StepRepeated)
    } else if wants_text(state.transcript) && (json matches Some(json) && repeats_text(
        state.attempts,
        json,
    )) {
        Some(Rejection::TextRepeated)
    } else if wants_text(state.transcript) && !(plan.action matches Some(action) && any_part(
        action,
        PartTest::EntersText,
    )) && !finishes(plan.response, json, state.attempts) {
        Some(Rejection::NoText)
    } else {
        None
    }
}

/// What becomes of a plan.
#[derive(Debug)]
pub enum PlanDecision {
    /// It is carried out.
    Dispatch { plan: PlannedTurn, action: Option<Json> },
    /// The planner is asked again.
    Rejected { rejection: Rejection },
    /// The turn ends with an error.
    Abort { rejection: Rejection },
}

pub enum PlanDecisionView {
    Dispatch { plan: PlanView, action: Option<JsonView> },
    Rejected { rejection: Rejection },
    Abort { rejection: Rejection },
}

impl View for PlanDecision {
    type V = PlanDecisionView;

    open spec fn view(&self) -> PlanDecisionView {
        match self {
            PlanDecision::Dispatch { plan, action } => PlanDecisionView::Dispatch {
                plan: plan@,
                action: opt_view(*action),
            },
            PlanDecision::Rejected { rejection } => PlanDecisionView::Rejected {
                rejection: *rejection,
            },
            PlanDecision::Abort { rejection } => PlanDecisionView::Abort { rejection: *rejection },
        }
    }
}

/// The loop after a plan that was rejected.
pub open spec fn after_rejection(
    state: LoopView,
    plan: PlanView,
    rejection: Rejection,
) -> LoopView {
    state.with_attempt(
        plan.response,
        opt_action_json(plan.action),
        Some("suspected_noop"@),
        Some(rejection.evidence()),
    )
}

/// What becomes of a plan that is considered, and of the loop.
pub open spec fn on_plan(state: LoopView, plan: PlanView) -> (LoopView, PlanDecisionView) {
    match rejection(state, plan) {
        Some(reason) => (
            after_rejection(state, plan, reason),
            if state.may_go_on() {
                PlanDecisionView::Rejected { rejection: reason }
            } else {
                PlanDecisionView::Abort { rejection: reason }
            },
        ),
        None => (
            state,
            PlanDecisionView::Dispatch { plan, action: opt_action_json(plan.action) },
        ),
    }
}

/// What follows an attempt.
#[derive(Debug)]
pub enum TurnDecision {
    /// The turn ends.
    Finish(CompletedAssistantTurn),
    /// The screen is looked at again, and the planner is asked again; the look
    /// may be there to verify what was entered.
    Reobserve { verify: bool },
}

pub enum TurnDecisionView {
    Finish(TurnView),
    Reobserve { verify: bool },
}

impl View for TurnDecision {
    type V = TurnDecisionView;

    open spec fn view(&self) -> TurnDecisionView {
        match self {
            TurnDecision::Finish(turn) => TurnDecisionView::Finish(turn@),
            TurnDecision::Reobserve { verify } => TurnDecisionView::Reobserve { verify: *verify },
        }
    }
}

/// The turn that ends with a dispatch error.
pub open spec fn dispatch_error_turn(index: int) -> TurnView {
    TurnView {
        response: "I hit a dispatch error before completing the full task."@,
        action: None,
        evidence: Some(
            with_field(
                verdict("partial"@, "dispatch_error"@),
                "attempt_count"@,
                nat_view(index as u64),
            ),
        ),
    }
}

/// What becomes of an action that could not be dispatched, and of the loop.
pub open spec fn on_dispatch_error(
    state: LoopView,
    action: Option<JsonView>,
    error: Seq<char>,
) -> (LoopView, TurnDecisionView) {
    (
        state.with_attempt(
            "Dispatch failed before the action completed."@,
            action,
            Some("failed"@),
            Some(with_field(verdict("failed"@, "dispatch_error"@), "error"@, text_view(error))),
        ),
        if state.may_go_on() {
            TurnDecisionView::Reobserve { verify: false }
        } else {
            TurnDecisionView::Finish(dispatch_error_turn(state.index()))
        },
    )
}

/// What a turn still lacks.
#[derive(Clone, Copy, Debug, PartialEq, Eq, Structural)]
pub enum Shortfall {
    OnlyOpened,
    NoOutput,
    WrongOutput,
    PageUnread,
}

/// What a turn still lacks, as long as another attempt may mend it.
pub open spec fn shortfall(state: LoopView, turn: TurnView) -> Option<Shortfall> {
    if !state.may_go_on() {
        None
    } else if only_opened(state.transcript, turn) {
        Some(Shortfall::OnlyOpened)
    } else if output_missing(state.transcript, turn) {
        Some(Shortfall::NoOutput)
    } else if output_differs(state.transcript, turn) {
        Some(Shortfall::WrongOutput)
    } else if page_missing(state.transcript, turn) {
        Some(Shortfall::PageUnread)
    } else {
        None
    }
}

/// The evidence of an attempt, with a note of what it lacks.
pub open spec fn noted_evidence(
    transcript: Seq<char>,
    evidence: Option<JsonView>,
    lack: Option<Shortfall>,
) -> Option<JsonView> {
    match lack {
        Some(Shortfall::OnlyOpened) => Some(open_only_note(evidence)),
        Some(Shortfall::NoOutput) => Some(no_readback_note(evidence)),
        Some(Shortfall::WrongOutput) => Some(
            wrong_output_note(
                evidence,
                expected_stdout(transcript),
                trimmed_opt(last_stdout(evidence)),
            ),
        ),
        Some(Shortfall::PageUnread) => Some(unread_page_note(evidence)),
        None => evidence,
    }
}

/// The effect that counts: a turn that lacks something is partial.
pub open spec fn judged_effect(state: LoopView, turn: TurnView) -> Option<Seq<char>> {
    if shortfall(state, turn) is Some {
        Some("partial"@)
    } else {
        observed_effect(turn, state.attempts)
    }
}

/// What becomes of a turn that was dispatched, and of the loop.
pub open spec fn on_turn(state: LoopView, turn: TurnView) -> (LoopView, TurnDecisionView) {
    let turn = with_readback(state.transcript, turn);
    let effect = judged_effect(state, turn);
    let more = replans(state.transcript, turn, effect, state.index(), state.budget);
    let verify = turn.action matches Some(action) && any_step(action, StepTest::VisibleEntry);
    if !more && !verify {
        (
            state,
            TurnDecisionView::Finish(
                marked_ran_out(state.transcript, turn, state.index(), state.budget),
            ),
        )
    } else {
        (
            state.with_attempt(
                turn.response,
                turn.action,
                effect,
                noted_evidence(state.transcript, turn.evidence, shortfall(state, turn)),
            ),
            TurnDecisionView::Reobserve { verify },
        )
    }
}

/// The loop after the screen was looked at again.
pub open spec fn on_observation(state: LoopView, verify: bool, observation: JsonView) -> LoopView {
    if verify {
        LoopView { attempts: observe_last(state.attempts, observation), ..state }
    } else {
        state
    }
}

/// The plan that starts the work without the planner: only in the first
/// attempt, and only if it goes to Aegis alone.
pub open spec fn head_start(state: LoopView, bootstrap: Option<PlanView>) -> Option<PlanView> {
    match bootstrap {
        Some(plan) => if state.attempts.len() == 0 && (plan.action matches Some(action)
            && every_part(action, PartTest::Aegis)) {
            Some(plan)
        } else {
            None
        },
        None => None,
    }
}

/// The turn that ends because the key of the planner is missing.
pub open spec fn missing_key_turn(
    state: LoopView,
    required: Seq<char>,
    planner_model: Seq<char>,
) -> TurnView {
    TurnView {
        response: missing_key_reply(required, planner_model, state.attempts),
        action: None,
        evidence: Some(
            with_field(
                with_field(
                    with_field(
                        verdict("failed"@, "planning_credentials_missing"@),
                        "required"@,
                        text_view(required),
                    ),
                    "planner_model"@,
                    text_view(planner_model),
                ),
                "attempt_count"@,
                nat_view(state.index() as u64),
            ),
        ),
    }
}

impl AgentLoop {
    /// A turn before its first attempt.
    pub fn start(transcript: String, budget: AgentLoopBudget) -> (state: AgentLoop)
        ensures
            state@.transcript == transcript@,
            state@.budget == budget,
            state@.attempts.len() == 0,
            state@.is_numbered(),
            state@.has_room(),
    {
        AgentLoop { transcript, budget, attempts: Vec::new() }
    }

    /// The number of the attempt that is under way.
    pub fn attempt_index(&self) -> (index: usize)
        requires
            self@.has_room(),
        ensures
            index == self@.index(),
    {
        assert(self@.attempts.len() == self.attempts@.len());
        self.attempts.len() + 1
    }

    /// Whether another attempt may follow the one that is under way.
    pub fn may_go_on(&self) -> (more: bool)
        requires
            self@.has_room(),
        ensures
            more == self@.may_go_on(),
    {
        self.budget.can_continue_after(self.attempt_index())
    }

    fn record(
        &mut self,
        response: String,
        action: Option<Json>,
        effect: Option<String>,
        evidence: Option<Json>,
    )
        requires
            old(self)@.has_room(),
        ensures
            final(self)@ == old(self)@.with_attempt(
                response@,
                opt_view(action),
                opt_text(effect),
                opt_view(evidence),
            ),
            old(self)@.is_numbered() ==> final(self)@.is_numbered(),
    {
        let ghost before = self@;
        let attempt_index = self.attempt_index();
        let ghost listed = self.attempts@;
        self.attempts.push(
            PlanAttemptContext { attempt_index, response, action, effect, evidence },
        );
        assert(self@.attempts =~= before.with_attempt(
            response@,
            opt_view(action),
            opt_text(effect),
            opt_view(evidence),
        ).attempts);
    }

    /// The label of the step in which the planner is asked.
    pub fn planning_label(&self) -> (label: String)
        requires
            self@.has_room(),
        ensures
            label@ == step_label(
                "planning"@,
                "attempt "@ + self@.budget.attempt_label(self@.index() as nat),
            ),
    {
        let mut value = "attempt ".to_owned();
        value.append(self.budget.format_attempt(self.attempt_index()).as_str());
        voice_step_label("planning", value.as_str())
    }

    /// The label of the step in which the screen is looked at again.
    pub fn observe_label(&self, after_error: bool, attempt_index: usize) -> (label: String)
        ensures
            label@ == step_label(
                "observe"@,
                (if after_error {
                    "after dispatch error "@
                } else {
                    "after attempt "@
                }) + decimal(attempt_index as nat),
            ),
    {
        let mut value = (if after_error {
            "after dispatch error "
        } else {
            "after attempt "
        }).to_owned();
        value.append(decimal_of(attempt_index as u64).as_str());
        voice_step_label("observe", value.as_str())
    }

    /// The plan that starts the work without the planner, if it may.
    pub fn begin(&self, bootstrap: Option<PlannedTurn>) -> (plan: Option<PlannedTurn>)
        ensures
            opt_plan(plan) == head_start(self@, opt_plan(bootstrap)),
    {
        assert(self@.attempts.len() == self.attempts@.len());
        if self.attempts.len() > 0 {
            return None;
        }
        match bootstrap {
            Some(plan) => {
                let only_aegis = match &plan.action {
                    Some(action) => input_action_uses_only_aegis_backend(action),
                    None => false,
                };
                if only_aegis {
                    Some(plan)
                } else {
                    None
                }
            },
            None => None,
        }
    }

    /// Ends the turn because the key of the planner is missing.
    pub fn credentials_missing(&self, required: &str, planner_model: &str) -> (turn:
        CompletedAssistantTurn)
        requires
            self@.has_room(),
        ensures
            turn@ == missing_key_turn(self@, required@, planner_model@),
    {
        let mut evidence = verdict_json("failed", "planning_credentials_missing");
        evidence.set("required", Json::text(required));
        evidence.set("planner_model", Json::text(planner_model));
        evidence.set("attempt_count", Json::number(self.attempt_index() as u64));
        CompletedAssistantTurn {
            response: planning_credentials_missing_message_with_attempts(
                required,
                planner_model,
                &self.attempts,
            ),
            action: None,
            evidence: Some(evidence),
        }
    }

    /// Decides what becomes of an error of the planner.
    pub fn planning_failed(&mut self, error: &str, bootstrap: Option<PlannedTurn>) -> (outcome:
        PlanningFailure)
        requires
            old(self)@.has_room(),
        ensures
            (final(self)@, outcome@) == on_planning_error(old(self)@, error@, opt_plan(bootstrap)),
            old(self)@.is_numbered() ==> final(self)@.is_numbered(),
    {
        assert(self@.attempts.len() == self.attempts@.len());
        let unusable = planning_error_is_empty_content(error)
            || planning_error_is_invalid_action_json(error);
        let outage = planning_error_is_retryable_infrastructure(error);
        if unusable || outage {
            if planning_error_can_use_bootstrap_recovery(unusable, &self.attempts) {
                if let Some(plan) = bootstrap {
                    return PlanningFailure::Recovered(plan);
                }
            }
            if !self.may_go_on() {
                let mut evidence = verdict_json("partial", "planning_error");
                evidence.set("error", Json::text(error));
                return PlanningFailure::Stop(
                    CompletedAssistantTurn {
                        response: "Planner output could not be used before the loop budget ended.".to_owned(),
                        action: None,
                        evidence: Some(evidence),
                    },
                );
            }
            let count = consecutive_planning_infrastructure_errors(&self.attempts);
            let reason = if outage {
                "planning_infrastructure_error"
            } else {
                "planning_error"
            };
            let mut noted = verdict_json("failed", reason);
            noted.set("error", Json::text(error));
            self.record(
                "Planner output could not be used.".to_owned(),
                None,
                Some("failed".to_owned()),
                Some(noted),
            );
            if outage && count + 1 >= MAX_CONSECUTIVE_PLANNER_INFRASTRUCTURE_ERRORS {
                let mut evidence = verdict_json("failed", "planning_infrastructure_error");
                evidence.set("attempt_count", Json::number((count + 1) as u64));
                evidence.set("error", Json::text(error));
                return PlanningFailure::Stop(
                    CompletedAssistantTurn {
                        response: "Planner service stayed unavailable while trying to continue the task.".to_owned(),
                        action: None,
                        evidence: Some(evidence),
                    },
                );
            }
            return PlanningFailure::Retry;
        }
        if planning_error_is_provider_account_failure(error) {
            let mut evidence = verdict_json("failed", "planning_provider_account_failure");
            evidence.set("attempt_count", Json::number(self.attempt_index() as u64));
            evidence.set("error", Json::text(error));
            return PlanningFailure::Stop(
                CompletedAssistantTurn {
                    response: planning_provider_account_failure_message_with_attempts(
                        error,
                        &self.attempts,
                    ),
                    action: None,
                    evidence: Some(evidence),
                },
            );
        }
        PlanningFailure::Fatal
    }
}

/// The JSON object of an optional action.
fn json_of(action: &Option<InputAction>) -> (value: Option<Json>)
    ensures
        opt_view(value) == opt_action_json(opt_action(*action)),
{
    match action {
        Some(action) => Some(action.to_json()),
        None => None,
    }
}

/// What was made of a plan before it was judged.
#[derive(Debug)]
pub struct PreparedPlan {
    pub plan: PlannedTurn,
    /// A plan that starts the work at once took the place of the planner's.
    pub bootstrapped: bool,
    /// How many actions went because they did what an earlier one had done.
    pub removed: usize,
}

/// Makes a plan ready to be judged: where the planner stalls, the plan that
/// starts the work at once takes its place; new notes are really created, and
/// nothing is done twice.
pub fn prepare_plan(
    transcript: &str,
    plan: PlannedTurn,
    bootstrap: Option<PlannedTurn>,
) -> (prepared: PreparedPlan)
    ensures
        prepared.plan@ == considered(transcript@, plan@, opt_plan(bootstrap)),
        prepared.bootstrapped == (stalls(transcript@, plan@) && bootstrap is Some),
        prepared.removed == ({
            let chosen = if prepared.bootstrapped {
                opt_plan(bootstrap)->0
            } else {
                plan@
            };
            let count = opt_removed(repaired(transcript@, chosen.action));
            if count <= usize::MAX {
                count as int
            } else {
                usize::MAX as int
            }
        }),
{
    let stalled = transcript_requests_long_range_work(transcript) && match &plan.action {
        Some(action) => input_action_is_open_only_setup(action),
        None => planner_response_claims_pending_work(plan.response.as_str()),
    };
    let mut bootstrapped = false;
    let mut chosen = plan;
    if stalled {
        if let Some(start) = bootstrap {
            chosen = start;
            bootstrapped = true;
        }
    }
    let PlannedTurn { response, action } = chosen;
    let mut action = action;
    repair_new_note_text_entry_plan(transcript, &mut action);
    let report = dedupe_redundant_sequence_actions(&mut action);
    PreparedPlan { plan: PlannedTurn { response, action }, bootstrapped, removed: report.removed }
}

/// The turn of a plan that was carried out: its reply, its action, and what the
/// daemon reported of it. A plan without action has nothing to report.
pub open spec fn carried_out(plan: PlanView, report: JsonView) -> TurnView {
    TurnView {
        response: plan.response,
        action: opt_action_json(plan.action),
        evidence: if plan.action is Some {
            Some(report)
        } else {
            None
        },
    }
}

/// The turn of a plan that was carried out.
pub fn complete_plan(plan: PlannedTurn, report: Json) -> (turn: CompletedAssistantTurn)
    ensures
        turn@ == carried_out(plan@, report@),
{
    let action = json_of(&plan.action);
    let evidence = if action.is_some() {
        Some(report)
    } else {
        None
    };
    CompletedAssistantTurn { response: plan.response, action, evidence }
}

/// How a turn is judged before it is decided on.
#[derive(Debug)]
pub struct Assessment {
    pub effect: Option<String>,
    pub evidence: Option<Json>,
    pub open_only_incomplete: bool,
    pub shell_readback_missing: bool,
    pub shell_expected_stdout_missing: bool,
    pub aegis_readback_missing: bool,
    pub long_range_continuation: bool,
    pub should_replan: bool,
}

impl AgentLoop {
    /// Why a plan is not carried out, if it is not.
    fn find_rejection(&self, plan: &PlannedTurn, action: &Option<Json>) -> (found: Option<
        Rejection,
    >)
        requires
            opt_view(*action) == opt_action_json(plan@.action),
        ensures
            found == rejection(self@, plan@),
    {
        let transcript = self.transcript.as_str();
        let response = plan.response.as_str();
        if transcript_explicitly_requests_aegis(transcript) {
            match &plan.action {
                Some(planned) => {
                    if !input_action_uses_only_aegis_backend(planned) {
                        return Some(Rejection::NotAegis);
                    }
                },
                None => {
                    if (final_response_claims_verified_result(response)
                        || final_response_reports_prior_failure(response))
                        && !prior_attempts_support_explicit_aegis_final(response, &self.attempts) {
                        return Some(Rejection::AegisFinalWithoutEvidence);
                    }
                },
            }
        }
        if action_null_plan_claims_pending_work(response, action) {
            return Some(Rejection::PendingWithoutAction);
        }
        if action_null_stops_long_range_without_evidence(
            transcript,
            response,
            action,
            &self.attempts,
        ) {
            return Some(Rejection::LongWorkGivenUp);
        }
        if let Some(planned) = &plan.action {
            if failure_boundary_plan_collapses_recovery(transcript, planned, &self.attempts) {
                return Some(Rejection::FailureHidden);
            }
        }
        if let Some(recorded) = action {
            if transcript_requests_long_range_work(transcript) && action_repeats_confirmed_attempt(
                &self.attempts,
                recorded,
            ) {
                return Some(Rejection::StepRepeated);
            }
            if transcript_requests_text_entry(transcript) && action_repeats_text_entry_attempt(
                &self.attempts,
                recorded,
            ) {
                return Some(Rejection::TextRepeated);
            }
        }
        let enters_text = match &plan.action {
            Some(planned) => action_satisfies_text_entry_request(planned),
            None => false,
        };
        if transcript_requests_text_entry(transcript) && !enters_text
            && !action_null_finishes_after_prior_attempts(response, action, &self.attempts) {
            return Some(Rejection::NoText);
        }
        None
    }

    /// Decides what becomes of a plan that was made ready.
    pub fn consider(&mut self, plan: PlannedTurn) -> (decision: PlanDecision)
        requires
            old(self)@.has_room(),
        ensures
            (final(self)@, decision@) == on_plan(old(self)@, plan@),
            old(self)@.is_numbered() ==> final(self)@.is_numbered(),
    {
        let action = json_of(&plan.action);
        match self.find_rejection(&plan, &action) {
            Some(rejection) => {
                let more = self.may_go_on();
                self.record(
                    plan.response,
                    action,
                    Some("suspected_noop".to_owned()),
                    Some(rejection.to_evidence()),
                );
                if more {
                    PlanDecision::Rejected { rejection }
                } else {
                    PlanDecision::Abort { rejection }
                }
            },
            None => PlanDecision::Dispatch { plan, action },
        }
    }

    /// Decides what becomes of an action that could not be dispatched.
    pub fn dispatch_failed(&mut self, action: Option<Json>, error: &str) -> (decision: TurnDecision)
        requires
            old(self)@.has_room(),
        ensures
            (final(self)@, decision@) == on_dispatch_error(old(self)@, opt_view(action), error@),
            old(self)@.is_numbered() ==> final(self)@.is_numbered(),
    {
        let more = self.may_go_on();
        let index = self.attempt_index();
        let mut noted = verdict_json("failed", "dispatch_error");
        noted.set("error", Json::text(error));
        self.record(
            "Dispatch failed before the action completed.".to_owned(),
            action,
            Some("failed".to_owned()),
            Some(noted),
        );
        if more {
            return TurnDecision::Reobserve { verify: false };
        }
        let mut evidence = verdict_json("partial", "dispatch_error");
        evidence.set("attempt_count", Json::number(index as u64));
        TurnDecision::Finish(
            CompletedAssistantTurn {
                response: "I hit a dispatch error before completing the full task.".to_owned(),
                action: None,
                evidence: Some(evidence),
            },
        )
    }

    /// Judges a turn whose reply is already the one that counts.
    pub fn assess(&self, turn: &CompletedAssistantTurn) -> (assessment: Assessment)
        requires
            self@.has_room(),
        ensures
            opt_text(assessment.effect) == judged_effect(self@, turn@),
            opt_view(assessment.evidence) == noted_evidence(
                self@.transcript,
                turn@.evidence,
                shortfall(self@, turn@),
            ),
            assessment.open_only_incomplete == (self@.may_go_on() && only_opened(
                self@.transcript,
                turn@,
            )),
            assessment.shell_readback_missing == (self@.may_go_on() && output_missing(
                self@.transcript,
                turn@,
            )),
            assessment.shell_expected_stdout_missing == (self@.may_go_on() && output_differs(
                self@.transcript,
                turn@,
            )),
            assessment.aegis_readback_missing == (self@.may_go_on() && page_missing(
                self@.transcript,
                turn@,
            )),
            assessment.long_range_continuation == goes_on(
                self@.transcript,
                turn@,
                judged_effect(self@, turn@),
                self@.index(),
                self@.budget,
            ),
            assessment.should_replan == replans(
                self@.transcript,
                turn@,
                judged_effect(self@, turn@),
                self@.index(),
                self@.budget,
            ),
    {
        let transcript = self.transcript.as_str();
        let index = self.attempt_index();
        let more = self.may_go_on();
        let open_only_incomplete = more && open_only_incomplete_for_goal(transcript, turn);
        let shell_readback_missing = more && shell_readback_missing_for_goal(transcript, turn);
        let shell_expected_stdout_missing = more && shell_expected_stdout_missing_for_goal(
            transcript,
            turn,
        );
        let aegis_readback_missing = more && aegis_readback_missing_for_goal(transcript, turn);
        let reported = match &turn.evidence {
            Some(evidence) => Some(evidence.clone()),
            None => None,
        };
        assert(opt_view(reported) == turn@.evidence);
        let mut effect = observed_turn_effect(turn, &self.attempts);
        let evidence;
        if open_only_incomplete {
            effect = Some("partial".to_owned());
            evidence = Some(open_only_incomplete_evidence(reported));
        } else if shell_readback_missing {
            effect = Some("partial".to_owned());
            evidence = Some(shell_readback_missing_evidence(reported));
        } else if shell_expected_stdout_missing {
            effect = Some("partial".to_owned());
            evidence = Some(shell_expected_stdout_missing_evidence(transcript, reported));
        } else if aegis_readback_missing {
            effect = Some("partial".to_owned());
            evidence = Some(aegis_readback_missing_evidence(reported));
        } else {
            evidence = reported;
        }
        let long_range_continuation = should_continue_long_range_after_verified_action(
            transcript,
            turn,
            &effect,
            index,
            self.budget,
        );
        let should_replan = should_replan_after_turn(
            transcript,
            turn,
            &effect,
            index,
            self.budget,
        );
        Assessment {
            effect,
            evidence,
            open_only_incomplete,
            shell_readback_missing,
            shell_expected_stdout_missing,
            aegis_readback_missing,
            long_range_continuation,
            should_replan,
        }
    }

    /// Decides what becomes of a turn that was dispatched.
    pub fn dispatched(&mut self, turn: CompletedAssistantTurn) -> (decision: TurnDecision)
        requires
            old(self)@.has_room(),
        ensures
            (final(self)@, decision@) == on_turn(old(self)@, turn@),
            old(self)@.is_numbered() ==> final(self)@.is_numbered(),
    {
        let mut turn = turn;
        apply_verified_readback_reply(self.transcript.as_str(), &mut turn);
        let assessment = self.assess(&turn);
        let verify = match &turn.action {
            Some(action) => action_requires_visible_reobserve_before_finish(action),
            None => false,
        };
        if !assessment.should_replan && !verify {
            let index = self.attempt_index();
            return TurnDecision::Finish(
                mark_long_range_budget_exhausted_if_needed(
                    self.transcript.as_str(),
                    turn,
                    index,
                    self.budget,
                ),
            );
        }
        self.record(turn.response, turn.action, assessment.effect, assessment.evidence);
        TurnDecision::Reobserve { verify }
    }

    /// Takes up what the second look at the screen gave.
    pub fn reobserved(
        &mut self,
        verify: bool,
        has_frame: bool,
        has_desktop: bool,
        errors: &Vec<String>,
    )
        ensures
            final(self)@ == on_observation(
                old(self)@,
                verify,
                observation_json(has_frame, has_desktop, texts(errors@)),
            ),
            old(self)@.is_numbered() ==> final(self)@.is_numbered(),
            old(self)@.has_room() ==> final(self)@.has_room(),
    {
        if verify {
            attach_verification_observation_to_last_attempt(
                &mut self.attempts,
                has_frame,
                has_desktop,
                errors,
            );
        }
    }

    /// How many attempts the turn took.
    pub fn attempt_count(&self, completed: &CompletedAssistantTurn) -> (count: usize)
        requires
            self@.has_room(),
        ensures
            count == all_attempts(completed@, self@.attempts).len(),
    {
        assert(self@.attempts.len() == self.attempts@.len());
        loop_attempt_count(completed, &self.attempts)
    }

    /// Ends the turn: adds the record of its attempts.
    pub fn finish(&self, completed: CompletedAssistantTurn) -> (result: CompletedAssistantTurn)
        requires
            self@.has_room(),
        ensures
            result@ == with_loop_evidence(completed@, self@.attempts),
    {
        assert(self@.attempts.len() == self.attempts@.len());
        attach_loop_evidence(completed, &self.attempts)
    }
}

/// A plan for a request that names Aegis is carried out only if all its actions
/// go to Aegis.
pub proof fn lemma_aegis_request_stays_with_aegis(state: LoopView, plan: PlanView)
    requires
        wants_aegis(state.transcript),
        on_plan(state, plan).1 is Dispatch,
        plan.action is Some,
    ensures
        every_part(plan.action->0, PartTest::Aegis),
{
}

/// A reply without action ends a request that names Aegis only if the attempts
/// bear it out, or if it claims neither a result nor a failure.
pub proof fn lemma_aegis_final_needs_evidence(state: LoopView, plan: PlanView)
    requires
        wants_aegis(state.transcript),
        on_plan(state, plan).1 is Dispatch,
        plan.action is None,
    ensures
        supports_aegis_final(plan.response, state.attempts) || !(claims_result(plan.response)
            || claims_failure(plan.response)),
{
}

/// A reply that only speaks of work to come never ends a turn.
pub proof fn lemma_pending_reply_is_never_carried_out(state: LoopView, plan: PlanView)
    requires
        plan.action is None,
        claims_pending(plan.response),
    ensures
        !(on_plan(state, plan).1 is Dispatch),
{
}

/// Text that was entered in a turn is not entered again, where the user asked
/// for text.
pub proof fn lemma_text_is_entered_once(state: LoopView, plan: PlanView)
    requires
        wants_text(state.transcript),
        on_plan(state, plan).1 is Dispatch,
        plan.action is Some,
    ensures
        !repeats_text(state.attempts, action_json(plan.action->0)),
{
}

/// A failure that the user wants to see is not hidden by its own repair.
pub proof fn lemma_failure_is_not_hidden(state: LoopView, plan: PlanView)
    requires
        on_plan(state, plan).1 is Dispatch,
        plan.action is Some,
    ensures
        !hides_failure(state.transcript, plan.action->0, state.attempts),
{
}

/// A rejected plan is recorded as the attempt that was under way, with the
/// reason; the attempts before it stay.
pub proof fn lemma_rejection_is_recorded(state: LoopView, plan: PlanView)
    requires
        state.has_room(),
        rejection(state, plan) is Some,
    ensures
        ({
            let after = on_plan(state, plan).0;
            &&& after.attempts.len() == state.attempts.len() + 1
            &&& after.attempts.drop_last() == state.attempts
            &&& after.attempts.last().attempt_index == state.index()
            &&& after.attempts.last().response == plan.response
            &&& field_is(
                after.attempts.last().evidence->0,
                "reason"@,
                rejection(state, plan)->0.spec_reason(),
            )
        }),
{
    let after = on_plan(state, plan).0;
    assert(after.attempts.drop_last() =~= state.attempts);
    reveal_strlit("reason");
    reveal_strlit("repair_hint");
    assert("reason"@.len() != "repair_hint"@.len());
}

/// The planner is asked again only within the budget; the one exception is a
/// look at text that was entered.
pub proof fn lemma_loop_stays_within_budget(
    state: LoopView,
    error: Seq<char>,
    bootstrap: Option<PlanView>,
    plan: PlanView,
    action: Option<JsonView>,
    turn: TurnView,
)
    ensures
        on_planning_error(state, error, bootstrap).1 is Retry ==> state.may_go_on(),
        on_plan(state, plan).1 is Rejected ==> state.may_go_on(),
        on_dispatch_error(state, action, error).1 is Reobserve ==> state.may_go_on(),
        on_turn(state, turn).1 == (TurnDecisionView::Reobserve { verify: false })
            ==> state.may_go_on(),
{
}

/// Every step that goes on records one attempt, and leaves the earlier ones as
/// they are.
pub proof fn lemma_each_step_records_one_attempt(
    state: LoopView,
    error: Seq<char>,
    bootstrap: Option<PlanView>,
    plan: PlanView,
    action: Option<JsonView>,
    turn: TurnView,
)
    ensures
        on_planning_error(state, error, bootstrap).1 is Retry ==> on_planning_error(
            state,
            error,
            bootstrap,
        ).0.attempts.drop_last() == state.attempts,
        !(on_plan(state, plan).1 is Dispatch) ==> on_plan(state, plan).0.attempts.drop_last()
            == state.attempts,
        on_dispatch_error(state, action, error).0.attempts.drop_last() == state.attempts,
        on_turn(state, turn).1 is Reobserve ==> on_turn(state, turn).0.attempts.drop_last()
            == state.attempts,
        on_turn(state, turn).1 is Finish ==> on_turn(state, turn).0 == state,
{
    assert(forall|a: AttemptView| #[trigger] state.attempts.push(a).drop_last() =~= state.attempts);
}

/// The planner is never asked a fourth time in a row after outages: once three
/// in a row are recorded, the turn ends.
pub proof fn lemma_outages_end_the_turn(
    state: LoopView,
    error: Seq<char>,
    bootstrap: Option<PlanView>,
)
    requires
        on_planning_error(state, error, bootstrap).1 is Retry,
    ensures
        outages(on_planning_error(state, error, bootstrap).0.attempts)
            < MAX_CONSECUTIVE_PLANNER_INFRASTRUCTURE_ERRORS,
{
    let after = on_planning_error(state, error, bootstrap).0;
    assert(after.attempts.drop_last() =~= state.attempts);
    let noted = with_field(
        verdict("failed"@, planning_reason(error)),
        "error"@,
        text_view(error),
    );
    assert(after.attempts.last().evidence == Some(noted));
    reveal_strlit("effect");
    reveal_strlit("reason");
    reveal_strlit("error");
    reveal_strlit("planning_error");
    reveal_strlit("planning_infrastructure_error");
    assert("reason"@.len() != "error"@.len());
    assert("planning_error"@.len() != "planning_infrastructure_error"@.len());
    assert(field_is(noted, "reason"@, planning_reason(error)));
}

/// What was noted on the screen is the only thing that a second look changes.
pub proof fn lemma_observation_keeps_attempts(state: LoopView, verify: bool, observation: JsonView)
    ensures
        ({
            let after = on_observation(state, verify, observation);
            &&& after.attempts.len() == state.attempts.len()
            &&& after.transcript == state.transcript
            &&& after.budget == state.budget
            &&& forall|i: int|
                0 <= i < state.attempts.len() ==> {
                    &&& (#[trigger] after.attempts[i]).attempt_index
                        == state.attempts[i].attempt_index
                    &&& after.attempts[i].response == state.attempts[i].response
                    &&& after.attempts[i].action == state.attempts[i].action
                    &&& after.attempts[i].effect == state.attempts[i].effect
                }
        }),
{
}

/// A finished turn of several attempts lists all of them, numbered from one on.
pub proof fn lemma_record_is_complete(state: LoopView, turn: TurnView)
    requires
        state.is_numbered(),
        state.has_room(),
    ensures
        forall|i: int|
            0 <= i < all_attempts(turn, state.attempts).len() ==> (#[trigger] all_attempts(
                turn,
                state.attempts,
            )[i]).attempt_index == i + 1,
        all_attempts(turn, state.attempts).take(state.attempts.len() as int) == state.attempts,
{
    assert(all_attempts(turn, state.attempts).take(state.attempts.len() as int)
        =~= state.attempts);
}

/// A plan with an action is carried out as it is, if the request asks for no
/// particular way: not for Aegis, not for text, not for long work and not for a
/// failure first.
pub proof fn lemma_plain_request_is_carried_out(state: LoopView, plan: PlanView)
    requires
        !wants_aegis(state.transcript),
        !wants_text(state.transcript),
        !wants_long_work(state.transcript),
        !wants_failure_first(state.transcript),
        plan.action is Some || !claims_pending(plan.response),
    ensures
        on_plan(state, plan) == (
            state,
            PlanDecisionView::Dispatch { plan, action: opt_action_json(plan.action) },
        ),
{
}

/// A request for text is carried out by a plan that enters a text which no attempt
/// before has entered, if nothing else is asked of it.
pub proof fn lemma_new_text_is_carried_out(
    state: LoopView,
    plan: PlanView,
    whole: ActionView,
    part: ActionView,
    text: Seq<char>,
)
    requires
        wants_text(state.transcript),
        !wants_aegis(state.transcript),
        !wants_failure_first(state.transcript),
        plan.action == Some(whole),
        within(part, whole),
        part == (ActionView::KeyType { text }) || part == (ActionView::KeyPaste { text }) || part
            == (ActionView::ClipboardWrite { text }),
        forall|i: int|
            0 <= i < state.attempts.len() ==> ((#[trigger] state.attempts[i]).action matches Some(
                prior,
            ) ==> !enters(prior, text)),
    ensures
        on_plan(state, plan).1 is Dispatch,
        on_plan(state, plan).0 == state,
{
    lemma_part_is_found(part, whole);
    lemma_written_part_is_found(part, whole);
    lemma_new_text_is_not_rejected(state.attempts, action_json(whole), text);
}

/// A request for text is not carried out by a first plan that enters none.
pub proof fn lemma_text_request_needs_text(state: LoopView, plan: PlanView)
    requires
        wants_text(state.transcript),
        state.attempts.len() == 0,
        plan.action is None || (forall|part: ActionView| #[trigger]
            within(part, plan.action->0) ==> !(part is KeyType || part is KeyPaste
                || part is ClipboardWrite || part is ShellExec)),
    ensures
        !(on_plan(state, plan).1 is Dispatch),
{
    if let Some(action) = plan.action {
        if any_part(action, PartTest::EntersText) {
            let part = lemma_found_part_is_there(action, PartTest::EntersText);
            assert(within(part, action));
        }
    }
}

/// Long work is not carried out by an action that was confirmed before, nor by
/// giving up.
pub proof fn lemma_long_work_needs_progress(state: LoopView, plan: PlanView)
    requires
        wants_long_work(state.transcript),
        on_plan(state, plan).1 is Dispatch,
    ensures
        plan.action matches Some(action) ==> !repeats_confirmed(state.attempts, action_json(action)),
        plan.action is None && state.attempts.len() == 0 ==> wants_clarification(plan.response),
{
}

/// A plan that is rejected leaves its trace, and the loop goes on while attempts
/// are left; only without them does it end.
pub proof fn lemma_rejection_or_end(state: LoopView, plan: PlanView)
    ensures
        on_plan(state, plan).1 is Rejected ==> state.may_go_on(),
        on_plan(state, plan).1 is Abort ==> !state.may_go_on(),
        !(on_plan(state, plan).1 is Dispatch) ==> ({
            let trace = on_plan(state, plan).0.attempts.last();
            &&& trace.response == plan.response
            &&& trace.action == opt_action_json(plan.action)
            &&& trace.effect == Some("suspected_noop"@)
            &&& trace.evidence is Some && text_field(trace.evidence->0, "effect"@) == Some(
                "suspected_noop"@,
            )
        }),
        on_plan(state, plan).0.transcript == state.transcript,
        on_plan(state, plan).0.budget == state.budget,
        on_plan(state, plan).1 matches PlanDecisionView::Dispatch { plan: kept, action } ==> kept
            == plan && action == opt_action_json(plan.action),
{
    reveal_strlit("effect");
    reveal_strlit("reason");
    reveal_strlit("repair_hint");
    assert("effect"@[0] != "reason"@[0]);
    assert("effect"@.len() != "repair_hint"@.len());
}

/// An error of the planner that says nothing of what is known ends the turn at
/// once, and so does one of the account, which is told.
pub proof fn lemma_other_planning_errors_end(
    state: LoopView,
    error: Seq<char>,
    bootstrap: Option<PlanView>,
)
    requires
        !is_empty_plan(error),
        !is_malformed_plan(error),
        !is_outage(error),
    ensures
        on_planning_error(state, error, bootstrap).0 == state,
        !is_account_failure(error) ==> on_planning_error(state, error, bootstrap).1 is Fatal,
        is_account_failure(error) ==> (on_planning_error(
            state,
            error,
            bootstrap,
        ).1 matches PlanningFailureView::Stop(turn) && turn.action is None && effect_of(
            turn.evidence,
        ) == Some("failed"@) && text_field(turn.evidence->0, "error"@) == Some(error)
            && text_field(turn.evidence->0, "reason"@) == Some(
            "planning_provider_account_failure"@,
        )),
{
    lemma_verdict_fields();
}

proof fn lemma_verdict_fields()
    ensures
        "effect"@ != "reason"@,
        "effect"@ != "error"@,
        "effect"@ != "attempt_count"@,
        "reason"@ != "error"@,
        "reason"@ != "attempt_count"@,
        "error"@ != "attempt_count"@,
{
    reveal_strlit("effect");
    reveal_strlit("reason");
    reveal_strlit("error");
    reveal_strlit("attempt_count");
    assert("effect"@[0] != "reason"@[0]);
    assert("effect"@.len() == 6 && "reason"@.len() == 6 && "error"@.len() == 5
        && "attempt_count"@.len() == 13);
}

/// Where the planner gave nothing that can be used, the first attempt falls back
/// on the plan that stands ready, if there is one; else the error is recorded and
/// the loop goes on, while attempts are left.
pub proof fn lemma_unusable_plan_is_tried_again(
    state: LoopView,
    error: Seq<char>,
    bootstrap: Option<PlanView>,
)
    requires
        is_empty_plan(error) || is_malformed_plan(error),
        !is_outage(error),
    ensures
        state.attempts.len() == 0 && bootstrap is Some ==> on_planning_error(
            state,
            error,
            bootstrap,
        ) == (state, PlanningFailureView::Recovered(bootstrap->0)),
        !(state.attempts.len() == 0 && bootstrap is Some) && state.may_go_on() ==> ({
            let after = on_planning_error(state, error, bootstrap);
            &&& after.1 is Retry
            &&& after.0.attempts.len() == state.attempts.len() + 1
            &&& after.0.attempts.last().action is None
            &&& after.0.attempts.last().effect == Some("failed"@)
            &&& text_field(after.0.attempts.last().evidence->0, "error"@) == Some(error)
            &&& text_field(after.0.attempts.last().evidence->0, "reason"@) == Some(
                "planning_error"@,
            )
        }),
        !(state.attempts.len() == 0 && bootstrap is Some) && !state.may_go_on() ==> (
        on_planning_error(state, error, bootstrap).1 matches PlanningFailureView::Stop(turn)
            && effect_of(turn.evidence) == Some("partial"@)),
{
    lemma_verdict_fields();
}

/// An outage of the planner is recorded and tried again; the third in a row ends
/// the turn, and one or two do not.
pub proof fn lemma_third_outage_ends(
    state: LoopView,
    error: Seq<char>,
    bootstrap: Option<PlanView>,
)
    requires
        is_outage(error),
        !is_empty_plan(error),
        !is_malformed_plan(error),
        state.may_go_on(),
    ensures
        outages(state.attempts) < 2 ==> on_planning_error(state, error, bootstrap).1 is Retry,
        outages(state.attempts) >= 2 ==> (on_planning_error(
            state,
            error,
            bootstrap,
        ).1 matches PlanningFailureView::Stop(turn) && effect_of(turn.evidence) == Some("failed"@)
            && text_field(turn.evidence->0, "error"@) == Some(error)),
        ({
            let added = on_planning_error(state, error, bootstrap).0.attempts.last();
            &&& added.effect == Some("failed"@)
            &&& text_field(added.evidence->0, "reason"@) == Some("planning_infrastructure_error"@)
        }),
        outages(on_planning_error(state, error, bootstrap).0.attempts) == outages(state.attempts)
            + 1,
{
    lemma_verdict_fields();
    let after = on_planning_error(state, error, bootstrap).0;
    assert(after.attempts.drop_last() =~= state.attempts);
}

/// An action that could not be handed to the daemon is recorded as failed, with
/// the error; the screen is looked at again while attempts are left.
pub proof fn lemma_failed_dispatch_is_recorded(
    state: LoopView,
    action: Option<JsonView>,
    error: Seq<char>,
)
    ensures
        ({
            let added = on_dispatch_error(state, action, error).0.attempts.last();
            &&& added.action == action
            &&& added.effect == Some("failed"@)
            &&& text_field(added.evidence->0, "error"@) == Some(error)
            &&& text_field(added.evidence->0, "reason"@) == Some("dispatch_error"@)
        }),
        state.may_go_on() <==> on_dispatch_error(state, action, error).1 == (
        TurnDecisionView::Reobserve { verify: false }),
        !state.may_go_on() ==> (on_dispatch_error(
            state,
            action,
            error,
        ).1 matches TurnDecisionView::Finish(turn) && effect_of(turn.evidence) == Some("partial"@)),
{
    lemma_verdict_fields();
}

/// A confirmed turn that entered no visible text and is no long work ends the
/// loop; the reply is the turn's own, or what was read back.
pub proof fn lemma_confirmed_turn_ends(state: LoopView, turn: TurnView, evidence: JsonView)
    requires
        !wants_long_work(state.transcript),
        !wants_readback(state.transcript),
        expected_stdout(state.transcript) is None,
        turn.evidence == Some(evidence),
        text_field(evidence, "effect"@) == Some("confirmed"@),
        turn.action matches Some(action) ==> !any_step(action, StepTest::VisibleEntry),
    ensures
        on_turn(state, turn) == (state, TurnDecisionView::Finish(turn)),
{
    reveal_strlit("confirmed");
    reveal_strlit("partial");
    reveal_strlit("unverifiable");
    reveal_strlit("suspected_noop");
    reveal_strlit("refused");
    reveal_strlit("failed");
    assert("confirmed"@.len() == 9 && "partial"@.len() == 7 && "unverifiable"@.len() == 12
        && "suspected_noop"@.len() == 14 && "refused"@.len() == 7 && "failed"@.len() == 6);
}

/// After visible text was entered the screen is looked at again before the turn
/// can end, whatever the effect was.
pub proof fn lemma_visible_text_is_looked_at(
    state: LoopView,
    turn: TurnView,
    whole: ActionView,
    part: ActionView,
)
    requires
        turn.action == Some(action_json(whole)),
        within(part, whole),
        part is KeyType || part is KeyPaste,
    ensures
        on_turn(state, turn).1 == (TurnDecisionView::Reobserve { verify: true }),
        on_turn(state, turn).0.attempts.len() == state.attempts.len() + 1,
        on_turn(state, turn).0.attempts.last().action == turn.action,
{
    lemma_written_part_is_found(part, whole);
}

/// While attempts are left, a turn whose effect leaves something to do is
/// recorded and followed by another; without attempts it ends the loop.
pub proof fn lemma_unfinished_turn_is_recorded(
    state: LoopView,
    turn: TurnView,
    evidence: JsonView,
    effect: Seq<char>,
)
    requires
        turn.evidence == Some(evidence),
        text_field(evidence, "effect"@) == Some(effect),
        effect == "partial"@ || effect == "unverifiable"@ || effect == "suspected_noop"@ || effect
            == "refused"@ || (effect == "failed"@ && turn.action is Some),
        turn.action matches Some(action) ==> !any_step(action, StepTest::VisibleEntry),
    ensures
        state.may_go_on() ==> on_turn(state, turn).1 == (TurnDecisionView::Reobserve {
            verify: false,
        }) && on_turn(state, turn).0.attempts.last().response == turn.response && on_turn(
            state,
            turn,
        ).0.attempts.last().action == turn.action,
        !state.may_go_on() ==> on_turn(state, turn).1 is Finish,
{
    reveal_strlit("confirmed");
    reveal_strlit("partial");
    reveal_strlit("unverifiable");
    reveal_strlit("suspected_noop");
    reveal_strlit("refused");
    reveal_strlit("failed");
    assert("confirmed"@.len() == 9 && "partial"@.len() == 7 && "unverifiable"@.len() == 12
        && "suspected_noop"@.len() == 14 && "refused"@.len() == 7 && "failed"@.len() == 6);
    lemma_other_replies_stay(state.transcript, turn);
    lemma_only_confirmed_turns_lack_output(state.transcript, turn);
    let judged = judged_effect(state, turn);
    assert(judged == Some(effect) || judged == Some("partial"@));
    lemma_unfinished_turns_are_followed(
        state.transcript,
        turn,
        judged->0,
        state.index(),
        AgentLoopBudget::Unbounded,
    );
}

/// A turn that lacks what was asked for counts as partial while attempts are left,
/// and not when none is; any other turn has the effect that was observed.
pub proof fn lemma_shortfall_is_partial(state: LoopView, turn: TurnView)
    ensures
        state.may_go_on() && (only_opened(state.transcript, turn) || output_missing(
            state.transcript,
            turn,
        ) || output_differs(state.transcript, turn) || page_missing(state.transcript, turn))
            ==> judged_effect(state, turn) == Some("partial"@) && effect_of(
            noted_evidence(state.transcript, turn.evidence, shortfall(state, turn)),
        ) == Some("partial"@),
        !state.may_go_on() ==> judged_effect(state, turn) == observed_effect(turn, state.attempts),
        !only_opened(state.transcript, turn) && !output_missing(state.transcript, turn)
            && !output_differs(state.transcript, turn) && !page_missing(state.transcript, turn)
            ==> judged_effect(state, turn) == observed_effect(turn, state.attempts)
            && noted_evidence(state.transcript, turn.evidence, shortfall(state, turn))
            == turn.evidence,
{
    let key = Seq::<char>::empty();
    reveal_strlit("effect");
    reveal_strlit("reason");
    reveal_strlit("repair_hint");
    reveal_strlit("expected_final_stdout");
    reveal_strlit("observed_stdout");
    reveal_strlit("dispatch_evidence");
    assert("effect"@.len() == 6 && "reason"@.len() == 6 && "repair_hint"@.len() == 11
        && "expected_final_stdout"@.len() == 21 && "observed_stdout"@.len() == 15
        && "dispatch_evidence"@.len() == 17);
    assert("effect"@[0] != "reason"@[0]);
}

/// The plan that stands ready takes the place of a plan for long work that only
/// opens applications or only promises, and of no other.
pub proof fn lemma_ready_plan_replaces_a_stall(
    transcript: Seq<char>,
    plan: PlanView,
    ready: PlanView,
)
    ensures
        considered(transcript, plan, None).response == plan.response,
        !wants_long_work(transcript) ==> considered(transcript, plan, Some(ready)).response
            == plan.response,
        wants_long_work(transcript) && plan.action is None && claims_pending(plan.response)
            ==> considered(transcript, plan, Some(ready)) == considered(transcript, ready, None),
        wants_long_work(transcript) && (plan.action matches Some(action) && action is OpenApp)
            ==> considered(transcript, plan, Some(ready)) == considered(transcript, ready, None),
        plan.action is None && !claims_pending(plan.response) ==> considered(
            transcript,
            plan,
            Some(ready),
        ) == considered(transcript, plan, None),
        plan.action matches Some(action) && !every_part(action, PartTest::OpenApp) ==> considered(
            transcript,
            plan,
            Some(ready),
        ) == considered(transcript, plan, None),
{
}

/// A turn starts with the plan that stands ready only if nothing was tried yet
/// and the plan goes to Aegis alone.
pub proof fn lemma_head_start_is_for_aegis(
    state: LoopView,
    plan: PlanView,
    part: ActionView,
)
    ensures
        state.attempts.len() > 0 ==> head_start(state, Some(plan)) is None,
        head_start(state, None) is None,
        plan.action is None ==> head_start(state, Some(plan)) is None,
        plan.action matches Some(action) && within(part, action) && !(part is Aegis) ==> head_start(
            state,
            Some(plan),
        ) is None,
        state.attempts.len() == 0 && (plan.action matches Some(action) && action is Aegis)
            ==> head_start(state, Some(plan)) == Some(plan),
{
    if let Some(action) = plan.action {
        if within(part, action) {
            lemma_part_is_found(part, action);
        }
    }
}

/// An action that was carried out has what the daemon reported as its evidence; a
/// reply without an action has none.
pub proof fn lemma_report_is_the_evidence(plan: PlanView, report: JsonView)
    ensures
        carried_out(plan, report).response == plan.response,
        plan.action matches Some(action) ==> carried_out(plan, report).action == Some(
            action_json(action),
        ) && carried_out(plan, report).evidence == Some(report),
        plan.action is None ==> carried_out(plan, report).action is None && carried_out(
            plan,
            report,
        ).evidence is None,
{
}

/// An attempt is recorded behind the others under the next number, and nothing
/// else of the loop changes.
pub proof fn lemma_attempt_gets_the_next_number(
    s: LoopView,
    response: Seq<char>,
    action: Option<JsonView>,
    effect: Option<Seq<char>>,
    evidence: Option<JsonView>,
)
    requires
        s.attempts.len() < usize::MAX,
    ensures
        ({
            let next = s.with_attempt(response, action, effect, evidence);
            &&& next.attempts.drop_last() == s.attempts
            &&& next.attempts.last().attempt_index == s.attempts.len() + 1
            &&& next.attempts.last().response == response
            &&& next.attempts.last().action == action
            &&& next.attempts.last().effect == effect
            &&& next.attempts.last().evidence == evidence
            &&& next.transcript == s.transcript
            &&& next.budget == s.budget
            &&& next.index() == s.index() + 1
            &&& s.is_numbered() ==> next.is_numbered()
        }),
        s.attempts.len() == 0 ==> s.index() == 1,
{
    let next = s.with_attempt(response, action, effect, evidence);
    assert(next.attempts.drop_last() =~= s.attempts);
}

} // verus!
