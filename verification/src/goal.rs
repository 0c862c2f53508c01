//! Whether a turn has reached what the user asked for, or the agent has to go on.

use vstd::prelude::*;

use crate::action::{action_json, lemma_action_is_written, lemma_kinds_differ, within, ActionView};
use crate::attempt::{effect_of, option_is, turn_effect, CompletedAssistantTurn, TurnView};
use crate::budget::AgentLoopBudget;
use crate::evidence::{
    aegis_observation_readback_missing, dispatch_evidence_has_nonempty_stdout,
    dispatch_evidence_last_nonempty_stdout, has_output, last_stdout, lemma_last_output_is_reported,
    lemma_no_message_shows_nothing, lemma_one_message_is_enough, messages, page_unread,
    shows_content, stdout_of,
};
use crate::json::{
    empty_object, field, nat_view, or_null, text_field, text_view, with_field, Json, JsonView,
};
use crate::step::{
    action_can_advance_long_range_goal, action_is_browser_research_setup, action_is_open_only_setup,
    action_is_text_entry, advances, any_step, every_step, json_action_uses_aegis_observation,
    json_action_uses_shell_exec, lemma_written_part_is_found, sets_up_search, StepTest,
};
use crate::text::{decimal, decimal_of, has_text, occurs_at, opt_text, same, trim, trimmed};
use crate::transcript::{
    expected_final_shell_stdout_value, expected_stdout, transcript_requests_long_range_work,
    transcript_requests_shell_readback, transcript_requests_text_entry, wants_long_work,
    wants_readback, wants_text,
};

verus! {

pub open spec fn turn_has(turn: TurnView, test: StepTest) -> bool {
    turn.action matches Some(action) && any_step(action, test)
}

pub open spec fn turn_confirmed(turn: TurnView) -> bool {
    effect_of(turn.evidence) == Some("confirmed"@)
}

/// Long work was asked for, and the turn only opened applications.
pub open spec fn only_opened(transcript: Seq<char>, turn: TurnView) -> bool {
    wants_long_work(transcript) && (turn.action matches Some(action) && every_step(
        action,
        StepTest::OpenApp,
    ))
}

/// Whether long work was asked for and the turn only opened applications.
pub fn open_only_incomplete_for_goal(transcript: &str, turn: &CompletedAssistantTurn) -> (found:
    bool)
    ensures
        found == only_opened(transcript@, turn@),
{
    transcript_requests_long_range_work(transcript) && match &turn.action {
        Some(action) => action_is_open_only_setup(action),
        None => false,
    }
}

/// A confirmed shell command gave no output, although something was to be read
/// back.
pub open spec fn output_missing(transcript: Seq<char>, turn: TurnView) -> bool {
    &&& wants_readback(transcript)
    &&& turn_has(turn, StepTest::ShellExec)
    &&& turn_confirmed(turn)
    &&& !(turn.evidence matches Some(evidence) && has_output(evidence))
}

fn turn_uses_shell(turn: &CompletedAssistantTurn) -> (found: bool)
    ensures
        found == turn_has(turn@, StepTest::ShellExec),
{
    match &turn.action {
        Some(action) => json_action_uses_shell_exec(action),
        None => false,
    }
}

fn turn_is_confirmed(turn: &CompletedAssistantTurn) -> (found: bool)
    ensures
        found == turn_confirmed(turn@),
{
    option_is(&turn_effect(turn), "confirmed")
}

/// Whether a confirmed shell command gave no output, although something was to
/// be read back.
pub fn shell_readback_missing_for_goal(transcript: &str, turn: &CompletedAssistantTurn) -> (found:
    bool)
    ensures
        found == output_missing(transcript@, turn@),
{
    transcript_requests_shell_readback(transcript) && turn_uses_shell(turn) && turn_is_confirmed(
        turn,
    ) && !(match &turn.evidence {
        Some(evidence) => dispatch_evidence_has_nonempty_stdout(evidence),
        None => false,
    })
}

/// A confirmed shell command gave another output than the one that was quoted.
pub open spec fn output_differs(transcript: Seq<char>, turn: TurnView) -> bool {
    match (expected_stdout(transcript), last_stdout(turn.evidence)) {
        (Some(expected), Some(stdout)) => turn_has(turn, StepTest::ShellExec) && turn_confirmed(
            turn,
        ) && trimmed(stdout) != expected,
        _ => false,
    }
}

/// Whether a confirmed shell command gave another output than the one that was
/// quoted.
pub fn shell_expected_stdout_missing_for_goal(
    transcript: &str,
    turn: &CompletedAssistantTurn,
) -> (found: bool)
    ensures
        found == output_differs(transcript@, turn@),
{
    match expected_final_shell_stdout_value(transcript) {
        Some(expected) => turn_uses_shell(turn) && turn_is_confirmed(turn)
            && match dispatch_evidence_last_nonempty_stdout(&turn.evidence) {
            Some(stdout) => !same(trim(stdout.as_str()).as_str(), expected.as_str()),
            None => false,
        },
        None => false,
    }
}

/// A page was read with Aegis for long work, and nothing came of it.
pub open spec fn page_missing(transcript: Seq<char>, turn: TurnView) -> bool {
    &&& wants_long_work(transcript)
    &&& turn_has(turn, StepTest::AegisObservation)
    &&& turn_confirmed(turn)
    &&& match (turn.action, turn.evidence) {
        (Some(action), Some(evidence)) => page_unread(action, evidence),
        _ => false,
    }
}

/// Whether a page was read with Aegis for long work and nothing came of it.
pub fn aegis_readback_missing_for_goal(transcript: &str, turn: &CompletedAssistantTurn) -> (found:
    bool)
    ensures
        found == page_missing(transcript@, turn@),
{
    match (&turn.action, &turn.evidence) {
        (Some(action), Some(evidence)) => transcript_requests_long_range_work(transcript)
            && json_action_uses_aegis_observation(action) && turn_is_confirmed(turn)
            && aegis_observation_readback_missing(action, evidence),
        _ => false,
    }
}

/// The reply of a turn that read something back is what it read.
pub open spec fn with_readback(transcript: Seq<char>, turn: TurnView) -> TurnView {
    if wants_readback(transcript) && turn_has(turn, StepTest::ShellExec) && turn_confirmed(turn) {
        match last_stdout(turn.evidence) {
            Some(stdout) => TurnView { response: trimmed(stdout), ..turn },
            None => turn,
        }
    } else {
        turn
    }
}

/// Makes what was read back the reply of the turn.
pub fn apply_verified_readback_reply(transcript: &str, turn: &mut CompletedAssistantTurn)
    ensures
        final(turn)@ == with_readback(transcript@, old(turn)@),
{
    if !transcript_requests_shell_readback(transcript) || !turn_uses_shell(turn)
        || !turn_is_confirmed(turn) {
        return;
    }
    if let Some(stdout) = dispatch_evidence_last_nonempty_stdout(&turn.evidence) {
        turn.response = trim(stdout.as_str());
    }
}

/// The action enters the text that the user asked for.
pub open spec fn fulfils_text(transcript: Seq<char>, action: JsonView) -> bool {
    any_step(action, StepTest::TextEntry) && wants_text(transcript) && !wants_long_work(transcript)
        && !sets_up_search(action)
}

/// Whether the action enters the text that the user asked for.
pub fn action_is_user_text_fulfillment(transcript: &str, action: &Json) -> (found: bool)
    ensures
        found == fulfils_text(transcript@, action@),
{
    action_is_text_entry(action) && transcript_requests_text_entry(transcript)
        && !transcript_requests_long_range_work(transcript) && !action_is_browser_research_setup(
        action,
    )
}

/// Long work goes on after a step that was confirmed.
pub open spec fn goes_on(
    transcript: Seq<char>,
    turn: TurnView,
    effect: Option<Seq<char>>,
    attempt_index: int,
    budget: AgentLoopBudget,
) -> bool {
    &&& budget.allows_more(attempt_index)
    &&& effect == Some("confirmed"@)
    &&& wants_long_work(transcript)
    &&& turn.action matches Some(action) && advances(action) && !fulfils_text(transcript, action)
}

/// Whether long work goes on after a step that was confirmed.
pub fn should_continue_long_range_after_verified_action(
    transcript: &str,
    turn: &CompletedAssistantTurn,
    effect: &Option<String>,
    attempt_index: usize,
    budget: AgentLoopBudget,
) -> (found: bool)
    ensures
        found == goes_on(transcript@, turn@, opt_text(*effect), attempt_index as int, budget),
{
    if !budget.can_continue_after(attempt_index) || !option_is(effect, "confirmed") {
        return false;
    }
    if !transcript_requests_long_range_work(transcript) {
        return false;
    }
    match &turn.action {
        Some(action) => action_can_advance_long_range_goal(action)
            && !action_is_user_text_fulfillment(transcript, action),
        None => false,
    }
}

/// An effect after which another attempt may help.
pub open spec fn is_unfinished(effect: Option<Seq<char>>) -> bool {
    ||| effect == Some("partial"@)
    ||| effect == Some("unverifiable"@)
    ||| effect == Some("suspected_noop"@)
    ||| effect == Some("refused"@)
    ||| effect == Some("failed"@)
}

/// Whether another attempt may follow an effect.
pub fn should_replan_after_effect(
    effect: &Option<String>,
    attempt_index: usize,
    budget: AgentLoopBudget,
) -> (found: bool)
    ensures
        found == (budget.allows_more(attempt_index as int) && is_unfinished(opt_text(*effect))),
{
    if !budget.can_continue_after(attempt_index) {
        return false;
    }
    option_is(effect, "partial") || option_is(effect, "unverifiable") || option_is(
        effect,
        "suspected_noop",
    ) || option_is(effect, "refused") || option_is(effect, "failed")
}

/// Another attempt follows the turn.
pub open spec fn replans(
    transcript: Seq<char>,
    turn: TurnView,
    effect: Option<Seq<char>>,
    attempt_index: int,
    budget: AgentLoopBudget,
) -> bool {
    &&& !(turn.action is None && (effect == Some("confirmed"@) || effect == Some("failed"@)))
    &&& ((budget.allows_more(attempt_index) && is_unfinished(effect)) || goes_on(
        transcript,
        turn,
        effect,
        attempt_index,
        budget,
    ))
}

/// Whether another attempt follows the turn.
pub fn should_replan_after_turn(
    transcript: &str,
    turn: &CompletedAssistantTurn,
    effect: &Option<String>,
    attempt_index: usize,
    budget: AgentLoopBudget,
) -> (found: bool)
    ensures
        found == replans(transcript@, turn@, opt_text(*effect), attempt_index as int, budget),
{
    if turn.action.is_none() && (option_is(effect, "confirmed") || option_is(effect, "failed")) {
        return false;
    }
    should_replan_after_effect(effect, attempt_index, budget)
        || should_continue_long_range_after_verified_action(
        transcript,
        turn,
        effect,
        attempt_index,
        budget,
    )
}

/// No attempt follows once the budget is used up.
pub proof fn lemma_no_replan_beyond_budget(
    transcript: Seq<char>,
    turn: TurnView,
    effect: Option<Seq<char>>,
    attempt_index: int,
    budget: AgentLoopBudget,
)
    requires
        !budget.allows_more(attempt_index),
    ensures
        !replans(transcript, turn, effect, attempt_index, budget),
{
}

/// Long work ended with an action, because the budget was used up.
pub open spec fn ran_out(
    transcript: Seq<char>,
    turn: TurnView,
    attempt_index: int,
    budget: AgentLoopBudget,
) -> bool {
    !budget.allows_more(attempt_index) && wants_long_work(transcript) && turn.action is Some
}

/// Whether long work ended with an action, because the budget was used up.
pub fn long_range_budget_exhausted_without_finish(
    transcript: &str,
    turn: &CompletedAssistantTurn,
    attempt_index: usize,
    budget: AgentLoopBudget,
) -> (found: bool)
    ensures
        found == ran_out(transcript@, turn@, attempt_index as int, budget),
{
    budget.exhausted_at(attempt_index) && transcript_requests_long_range_work(transcript)
        && turn.action.is_some()
}

/// What the user is told of a turn that ran out of its budget.
pub open spec fn ran_out_reply(max_attempts: nat) -> Seq<char> {
    "I made progress but hit the "@ + decimal(max_attempts)
        + "-attempt loop budget before completing the full task."@
}

/// A turn that ran out of its budget says so; any other stays as it is.
pub open spec fn marked_ran_out(
    transcript: Seq<char>,
    turn: TurnView,
    attempt_index: int,
    budget: AgentLoopBudget,
) -> TurnView {
    match budget {
        AgentLoopBudget::Finite { max_attempts } => if ran_out(
            transcript,
            turn,
            attempt_index,
            budget,
        ) {
            TurnView {
                response: ran_out_reply(max_attempts as nat),
                action: turn.action,
                evidence: Some(
                    with_field(
                        with_field(
                            with_field(
                                with_field(empty_object(), "effect"@, text_view("partial"@)),
                                "reason"@,
                                text_view("long_range_goal_reached_agent_loop_budget"@),
                            ),
                            "max_attempts"@,
                            nat_view(max_attempts as u64),
                        ),
                        "last_evidence"@,
                        or_null(turn.evidence),
                    ),
                ),
            }
        } else {
            turn
        },
        AgentLoopBudget::Unbounded => turn,
    }
}

/// Makes a turn that ran out of its budget say so.
pub fn mark_long_range_budget_exhausted_if_needed(
    transcript: &str,
    turn: CompletedAssistantTurn,
    attempt_index: usize,
    budget: AgentLoopBudget,
) -> (result: CompletedAssistantTurn)
    ensures
        result@ == marked_ran_out(transcript@, turn@, attempt_index as int, budget),
{
    if !long_range_budget_exhausted_without_finish(transcript, &turn, attempt_index, budget) {
        return turn;
    }
    match budget.max_attempts() {
        Some(max_attempts) => {
            let mut response = "I made progress but hit the ".to_owned();
            response.append(decimal_of(max_attempts as u64).as_str());
            response.append("-attempt loop budget before completing the full task.");
            let mut evidence = Json::object();
            evidence.set("effect", Json::text("partial"));
            evidence.set("reason", Json::text("long_range_goal_reached_agent_loop_budget"));
            evidence.set("max_attempts", Json::number(max_attempts as u64));
            evidence.set("last_evidence", Json::opt(&turn.evidence));
            CompletedAssistantTurn { response, action: turn.action, evidence: Some(evidence) }
        },
        None => turn,
    }
}

/// Where the user asked to read something back, a confirmed shell turn replies
/// with the output of its last command that gave any, without the blanks around
/// it; its action and its evidence stay.
pub proof fn lemma_last_output_is_the_reply(
    transcript: Seq<char>,
    turn: TurnView,
    evidence: JsonView,
    k: int,
    stdout: Seq<char>,
)
    requires
        wants_readback(transcript),
        turn_has(turn, StepTest::ShellExec),
        turn.evidence == Some(evidence),
        text_field(evidence, "effect"@) == Some("confirmed"@),
        0 <= k < messages(evidence).len(),
        stdout_of(messages(evidence)[k]) == Some(stdout),
        trimmed(stdout).len() > 0,
        forall|j: int|
            k < j < messages(evidence).len() ==> (stdout_of(
                #[trigger] messages(evidence)[j],
            ) matches Some(other) ==> trimmed(other).len() == 0),
    ensures
        with_readback(transcript, turn).response == trimmed(stdout),
        with_readback(transcript, turn).action == turn.action,
        with_readback(transcript, turn).evidence == turn.evidence,
{
    lemma_last_output_is_reported(messages(evidence), k, stdout);
}

/// In any other case a turn keeps its reply: where nothing was to be read back,
/// where no shell command ran, where the turn was not confirmed, and where no
/// output came.
pub proof fn lemma_other_replies_stay(transcript: Seq<char>, turn: TurnView)
    ensures
        !wants_readback(transcript) ==> with_readback(transcript, turn) == turn,
        turn.action is None ==> with_readback(transcript, turn) == turn,
        !turn_has(turn, StepTest::ShellExec) ==> with_readback(transcript, turn) == turn,
        turn.evidence is None ==> with_readback(transcript, turn) == turn,
        turn.evidence matches Some(evidence) && text_field(evidence, "effect"@) != Some(
            "confirmed"@,
        ) ==> with_readback(transcript, turn) == turn,
        turn.evidence matches Some(evidence) && messages(evidence).len() == 0 ==> with_readback(
            transcript,
            turn,
        ) == turn,
{
}

/// The output is another one than the user quoted exactly if the last output
/// that came differs from it, apart from blanks around it.
pub proof fn lemma_quoted_output_is_compared(
    transcript: Seq<char>,
    turn: TurnView,
    evidence: JsonView,
    expected: Seq<char>,
    k: int,
    stdout: Seq<char>,
)
    requires
        expected_stdout(transcript) == Some(expected),
        turn_has(turn, StepTest::ShellExec),
        turn.evidence == Some(evidence),
        text_field(evidence, "effect"@) == Some("confirmed"@),
        0 <= k < messages(evidence).len(),
        stdout_of(messages(evidence)[k]) == Some(stdout),
        trimmed(stdout).len() > 0,
        forall|j: int|
            k < j < messages(evidence).len() ==> (stdout_of(
                #[trigger] messages(evidence)[j],
            ) matches Some(other) ==> trimmed(other).len() == 0),
    ensures
        output_differs(transcript, turn) <==> trimmed(stdout) != expected,
        !output_missing(transcript, turn),
{
    lemma_last_output_is_reported(messages(evidence), k, stdout);
    lemma_one_message_is_enough(evidence, k, stdout);
}

/// A confirmed shell turn without any output lacks it, if something was to be
/// read back; nothing is compared with it then.
pub proof fn lemma_missing_output_is_noticed(
    transcript: Seq<char>,
    turn: TurnView,
    evidence: JsonView,
)
    requires
        turn.evidence == Some(evidence),
        turn_has(turn, StepTest::ShellExec),
        text_field(evidence, "effect"@) == Some("confirmed"@),
        forall|i: int|
            0 <= i < messages(evidence).len() ==> (stdout_of(
                #[trigger] messages(evidence)[i],
            ) matches Some(stdout) ==> trimmed(stdout).len() == 0),
    ensures
        output_missing(transcript, turn) <==> wants_readback(transcript),
        !output_differs(transcript, turn),
        with_readback(transcript, turn) == turn,
{
    lemma_no_message_shows_nothing(evidence);
}

/// Nothing is missed of a turn that is not confirmed, that ran no shell command
/// or that read no page.
pub proof fn lemma_only_confirmed_turns_lack_output(transcript: Seq<char>, turn: TurnView)
    ensures
        !(turn.evidence matches Some(evidence) && text_field(evidence, "effect"@) == Some(
            "confirmed"@,
        )) ==> !output_missing(transcript, turn) && !output_differs(transcript, turn)
            && !page_missing(transcript, turn),
        !turn_has(turn, StepTest::ShellExec) ==> !output_missing(transcript, turn)
            && !output_differs(transcript, turn),
        !turn_has(turn, StepTest::AegisObservation) ==> !page_missing(transcript, turn),
        expected_stdout(transcript) is None ==> !output_differs(transcript, turn),
        !wants_readback(transcript) ==> !output_missing(transcript, turn),
        !wants_long_work(transcript) ==> !page_missing(transcript, turn) && !only_opened(
            transcript,
            turn,
        ),
{
}

/// A confirmed turn of long work that read a page lacks what it read exactly if
/// none of its messages says anything.
pub proof fn lemma_unread_page_is_noticed(
    transcript: Seq<char>,
    turn: TurnView,
    evidence: JsonView,
)
    requires
        wants_long_work(transcript),
        turn_has(turn, StepTest::AegisObservation),
        turn.evidence == Some(evidence),
        text_field(evidence, "effect"@) == Some("confirmed"@),
    ensures
        page_missing(transcript, turn) <==> !shows_content(evidence),
{
}

/// Long work that only opened applications has only begun, and no other plan has.
pub proof fn lemma_opening_is_not_enough(
    transcript: Seq<char>,
    turn: TurnView,
    part: ActionView,
    whole: ActionView,
)
    requires
        wants_long_work(transcript),
        turn.action == Some(action_json(whole)),
    ensures
        whole is OpenApp ==> only_opened(transcript, turn),
        within(part, whole) && !(part is OpenApp) ==> !only_opened(transcript, turn),
{
    if within(part, whole) {
        lemma_written_part_is_found(part, whole);
    }
    if whole is OpenApp {
        lemma_kinds_differ();
        lemma_action_is_written(whole->app_name, 0, Seq::empty(), Seq::empty(), 0);
    }
}

/// While attempts are left, a turn whose effect leaves something to do is
/// followed by another; one that ended by itself, or of which nothing is known,
/// is not.
pub proof fn lemma_unfinished_turns_are_followed(
    transcript: Seq<char>,
    turn: TurnView,
    effect: Seq<char>,
    attempt_index: int,
    budget: AgentLoopBudget,
)
    requires
        budget.allows_more(attempt_index),
    ensures
        turn.action is Some && (effect == "partial"@ || effect == "unverifiable"@ || effect
            == "suspected_noop"@ || effect == "refused"@ || effect == "failed"@) ==> replans(
            transcript,
            turn,
            Some(effect),
            attempt_index,
            budget,
        ),
        turn.action is None && (effect == "partial"@ || effect == "unverifiable"@ || effect
            == "suspected_noop"@ || effect == "refused"@) ==> replans(
            transcript,
            turn,
            Some(effect),
            attempt_index,
            budget,
        ),
        turn.action is None && (effect == "confirmed"@ || effect == "failed"@ || effect
            == "stopped"@) ==> !replans(transcript, turn, Some(effect), attempt_index, budget),
        !replans(transcript, turn, None, attempt_index, budget),
        effect == "stopped"@ ==> !replans(transcript, turn, Some(effect), attempt_index, budget),
        effect == "confirmed"@ && !wants_long_work(transcript) ==> !replans(
            transcript,
            turn,
            Some(effect),
            attempt_index,
            budget,
        ),
{
    reveal_strlit("partial");
    reveal_strlit("unverifiable");
    reveal_strlit("suspected_noop");
    reveal_strlit("refused");
    reveal_strlit("failed");
    reveal_strlit("confirmed");
    reveal_strlit("stopped");
    assert("partial"@[0] == 'p' && "refused"@[0] == 'r' && "stopped"@[0] == 's');
    assert("unverifiable"@.len() == 12 && "suspected_noop"@.len() == 14 && "failed"@.len() == 6);
    assert("confirmed"@.len() == 9 && "stopped"@.len() == 7);
    assert("partial"@.len() == 7 && "refused"@.len() == 7);
}

/// Confirmed long work goes on after each action that moves it forward.
pub proof fn lemma_long_work_goes_on(
    transcript: Seq<char>,
    turn: TurnView,
    whole: ActionView,
    attempt_index: int,
    budget: AgentLoopBudget,
)
    requires
        budget.allows_more(attempt_index),
        wants_long_work(transcript),
        turn.action == Some(action_json(whole)),
    ensures
        whole is ShellExec || whole is Aegis || whole is OpenApp || whole is Sequence || whole is KeyPress
            || whole is KeyType || whole is KeyPaste || whole is ClipboardWrite ==> replans(
            transcript,
            turn,
            Some("confirmed"@),
            attempt_index,
            budget,
        ),
{
    match whole {
        ActionView::ShellExec { command, timeout_ms } => {
            lemma_action_is_written(command, timeout_ms, Seq::empty(), Seq::empty(), 0);
        },
        ActionView::Aegis { args, timeout_ms } => {
            lemma_action_is_written(Seq::empty(), timeout_ms, args, Seq::empty(), 0);
        },
        ActionView::OpenApp { app_name } => {
            lemma_action_is_written(app_name, 0, Seq::empty(), Seq::empty(), 0);
        },
        ActionView::KeyPress { combo } => {
            lemma_action_is_written(combo, 0, Seq::empty(), Seq::empty(), 0);
        },
        ActionView::KeyType { text } => {
            lemma_action_is_written(text, 0, Seq::empty(), Seq::empty(), 0);
        },
        ActionView::KeyPaste { text } => {
            lemma_action_is_written(text, 0, Seq::empty(), Seq::empty(), 0);
        },
        ActionView::ClipboardWrite { text } => {
            lemma_action_is_written(text, 0, Seq::empty(), Seq::empty(), 0);
        },
        ActionView::Sequence { actions, inter_action_delay_ms } => {
            lemma_action_is_written(
                Seq::empty(),
                inter_action_delay_ms,
                Seq::empty(),
                actions,
                0,
            );
        },
        _ => {},
    }
}

/// Only long work with an action that took the last attempt ran out of attempts;
/// its reply tells how many there were, and what the daemon reported stays.
pub proof fn lemma_last_attempt_is_told(
    transcript: Seq<char>,
    turn: TurnView,
    attempt_index: int,
    max_attempts: usize,
)
    ensures
        ({
            let budget = AgentLoopBudget::Finite { max_attempts };
            let marked = marked_ran_out(transcript, turn, attempt_index, budget);
            &&& attempt_index < max_attempts ==> marked == turn
            &&& !wants_long_work(transcript) ==> marked == turn
            &&& turn.action is None ==> marked == turn
            &&& marked.action == turn.action
            &&& attempt_index >= max_attempts && wants_long_work(transcript) && turn.action is Some
                ==> has_text(marked.response, decimal(max_attempts as nat)) && effect_of(
                marked.evidence,
            ) == Some("partial"@) && field(marked.evidence->0, "last_evidence"@) == Some(
                or_null(turn.evidence),
            ) && text_field(marked.evidence->0, "reason"@) == Some(
                "long_range_goal_reached_agent_loop_budget"@,
            )
        }),
        marked_ran_out(transcript, turn, attempt_index, AgentLoopBudget::Unbounded) == turn,
{
    reveal_strlit("effect");
    reveal_strlit("reason");
    reveal_strlit("max_attempts");
    reveal_strlit("last_evidence");
    assert("effect"@[0] != "reason"@[0]);
    assert("effect"@.len() == 6 && "reason"@.len() == 6);
    assert("max_attempts"@.len() == 12 && "last_evidence"@.len() == 13);
    let head = "I made progress but hit the "@;
    let n = decimal(max_attempts as nat);
    let reply = ran_out_reply(max_attempts as nat);
    assert(reply.subrange(head.len() as int, (head.len() + n.len()) as int) =~= n);
    assert(occurs_at(reply, n, head.len() as int));
}

/// A request for text is fulfilled by an action that enters text, unless the work
/// is long or the action only sets up a search.
pub proof fn lemma_entering_fulfils_the_request(transcript: Seq<char>, action: JsonView)
    ensures
        any_step(action, StepTest::TextEntry) && wants_text(transcript) && !wants_long_work(
            transcript,
        ) && !sets_up_search(action) ==> fulfils_text(transcript, action),
        sets_up_search(action) ==> !fulfils_text(transcript, action),
        wants_long_work(transcript) ==> !fulfils_text(transcript, action),
        !wants_text(transcript) ==> !fulfils_text(transcript, action),
        !any_step(action, StepTest::TextEntry) ==> !fulfils_text(transcript, action),
{
}

/// A page is missed only by a confirmed turn of long work that read one.
pub proof fn lemma_only_reading_misses_a_page(transcript: Seq<char>, turn: TurnView)
    requires
        page_missing(transcript, turn),
    ensures
        wants_long_work(transcript),
        turn_has(turn, StepTest::AegisObservation),
        turn_confirmed(turn),
        turn.action is Some,
        turn.evidence is Some,
{
}

} // verus!
