//! How many attempts a turn may take.

use vstd::prelude::*;

use crate::json::{empty_object, nat_view, text_view, with_field, Json, JsonView};
use crate::spacing::{all_white, lemma_trimmed_is_the_core, lemma_white_is_trimmed};
use crate::text::{
    decimal, decimal_of, is_digit, lemma_number_is_read_back, lemma_only_digits_are_a_number, lower,
    opt_text, parse_u64, parsed, same, to_lower, trim, trimmed,
};

verus! {

/// How many attempts a turn may take.
#[derive(Clone, Copy, Debug, PartialEq, Eq, Structural)]
pub enum AgentLoopBudget {
    Finite { max_attempts: usize },
    Unbounded,
}

impl AgentLoopBudget {
    pub open spec fn allows_more(self, attempt_index: int) -> bool {
        match self {
            AgentLoopBudget::Finite { max_attempts } => attempt_index < max_attempts,
            AgentLoopBudget::Unbounded => true,
        }
    }

    /// Whether another attempt may follow this one.
    pub fn can_continue_after(self, attempt_index: usize) -> (more: bool)
        ensures
            more == self.allows_more(attempt_index as int),
    {
        match self {
            AgentLoopBudget::Finite { max_attempts } => attempt_index < max_attempts,
            AgentLoopBudget::Unbounded => true,
        }
    }

    /// Whether this attempt is the last one.
    pub fn exhausted_at(self, attempt_index: usize) -> (exhausted: bool)
        ensures
            exhausted == !self.allows_more(attempt_index as int),
    {
        match self {
            AgentLoopBudget::Finite { max_attempts } => attempt_index >= max_attempts,
            AgentLoopBudget::Unbounded => false,
        }
    }

    pub open spec fn attempt_label(self, attempt_index: nat) -> Seq<char> {
        match self {
            AgentLoopBudget::Finite { max_attempts } => decimal(attempt_index) + "/"@ + decimal(
                max_attempts as nat,
            ),
            AgentLoopBudget::Unbounded => decimal(attempt_index) + "/n"@,
        }
    }

    /// The attempt and how many there may be.
    pub fn format_attempt(self, attempt_index: usize) -> (label: String)
        ensures
            label@ == self.attempt_label(attempt_index as nat),
    {
        let mut label = decimal_of(attempt_index as u64);
        match self {
            AgentLoopBudget::Finite { max_attempts } => {
                label.append("/");
                label.append(decimal_of(max_attempts as u64).as_str());
            },
            AgentLoopBudget::Unbounded => {
                label.append("/n");
            },
        }
        label
    }

    /// How many attempts there may be, where there is a limit.
    pub fn max_attempts(self) -> (max: Option<usize>)
        ensures
            max == (match self {
                AgentLoopBudget::Finite { max_attempts } => Some(max_attempts),
                AgentLoopBudget::Unbounded => None,
            }),
    {
        match self {
            AgentLoopBudget::Finite { max_attempts } => Some(max_attempts),
            AgentLoopBudget::Unbounded => None,
        }
    }

    pub open spec fn json(self) -> JsonView {
        match self {
            AgentLoopBudget::Finite { max_attempts } => with_field(
                with_field(empty_object(), "kind"@, text_view("finite"@)),
                "max_attempts"@,
                nat_view(max_attempts as u64),
            ),
            AgentLoopBudget::Unbounded => with_field(
                empty_object(),
                "kind"@,
                text_view("unbounded"@),
            ),
        }
    }

    /// The JSON object of a budget.
    pub fn to_json(self) -> (value: Json)
        ensures
            value@ == self.json(),
    {
        let mut value = Json::object();
        match self {
            AgentLoopBudget::Finite { max_attempts } => {
                value.set("kind", Json::text("finite"));
                value.set("max_attempts", Json::number(max_attempts as u64));
            },
            AgentLoopBudget::Unbounded => {
                value.set("kind", Json::text("unbounded"));
            },
        }
        value
    }
}

/// The budget of a turn when none is set.
pub fn default_agent_loop_budget() -> (budget: AgentLoopBudget)
    ensures
        budget == AgentLoopBudget::Unbounded,
{
    AgentLoopBudget::Unbounded
}

/// The budget that a setting asks for: a number that is not zero. Anything
/// else leaves the turn without a limit.
pub open spec fn budget_of(setting: Option<Seq<char>>) -> AgentLoopBudget {
    match setting {
        Some(value) => match parsed(lower(trimmed(value)), usize::MAX as nat) {
            Some(max_attempts) => if max_attempts > 0 {
                AgentLoopBudget::Finite { max_attempts: max_attempts as usize }
            } else {
                AgentLoopBudget::Unbounded
            },
            None => AgentLoopBudget::Unbounded,
        },
        None => AgentLoopBudget::Unbounded,
    }
}

/// The budget that the setting `CUA_AGENT_LOOP_MAX_ATTEMPTS` asks for.
pub fn agent_loop_budget(setting: &Option<String>) -> (budget: AgentLoopBudget)
    ensures
        budget == budget_of(opt_text(*setting)),
{
    match setting {
        Some(value) => {
            let value = to_lower(trim(value.as_str()).as_str());
            let value = value.as_str();
            proof {
                lemma_letter_is_no_number(value@);
            }
            if value.is_empty() {
                return default_agent_loop_budget();
            }
            if same(value, "n") {
                return AgentLoopBudget::Unbounded;
            }
            match parse_u64(value) {
                Some(n) => if 0 < n && n <= usize::MAX as u64 {
                    AgentLoopBudget::Finite { max_attempts: n as usize }
                } else {
                    default_agent_loop_budget()
                },
                None => default_agent_loop_budget(),
            }
        },
        None => default_agent_loop_budget(),
    }
}

proof fn lemma_letter_is_no_number(s: Seq<char>)
    ensures
        s == "n"@ || s.len() == 0 ==> parsed(s, usize::MAX as nat) is None,
{
    reveal_strlit("n");
    if s == "n"@ {
        assert(s[0] == 'n');
        assert(!crate::text::is_digit(s[0]));
    }
}

/// A budget that is not exhausted allows another attempt, and none is both.
pub proof fn lemma_budget_ends_once(budget: AgentLoopBudget, attempt_index: int, later: int)
    requires
        attempt_index <= later,
    ensures
        budget.allows_more(later) ==> budget.allows_more(attempt_index),
{
}

/// A positive number as a setting is the number of attempts, whatever blanks are
/// around it; zero, any other text and no setting at all set no limit.
pub proof fn lemma_setting_limits_the_attempts(n: nat, before: Seq<char>, after: Seq<char>)
    requires
        all_white(before),
        all_white(after),
    ensures
        0 < n <= usize::MAX ==> budget_of(Some(before + decimal(n) + after)) == (
        AgentLoopBudget::Finite { max_attempts: n as usize }),
        budget_of(Some(before + decimal(0) + after)) == AgentLoopBudget::Unbounded,
        budget_of(None) == AgentLoopBudget::Unbounded,
        budget_of(Some(before)) == AgentLoopBudget::Unbounded,
{
    lemma_plain_number(n, before, after);
    lemma_plain_number(0, before, after);
    lemma_number_is_read_back(n, usize::MAX as nat);
    lemma_number_is_read_back(0, usize::MAX as nat);
    lemma_white_is_trimmed(before);
    assert(lower(Seq::<char>::empty()) =~= Seq::<char>::empty());
}

proof fn lemma_plain_number(n: nat, before: Seq<char>, after: Seq<char>)
    requires
        all_white(before),
        all_white(after),
    ensures
        lower(trimmed(before + decimal(n) + after)) == decimal(n),
{
    lemma_number_is_read_back(n, n);
    let s = decimal(n);
    assert(is_digit(s[0]) && is_digit(s[s.len() - 1]));
    lemma_trimmed_is_the_core(before, s, after);
    assert(lower(s) =~= s);
}

/// Text that is no number sets no limit.
pub proof fn lemma_other_text_sets_no_limit(text: Seq<char>, i: int)
    requires
        0 <= i < trimmed(text).len(),
        !('0' <= trimmed(text)[i] <= '9'),
        i > 0 || trimmed(text)[0] != '+',
    ensures
        budget_of(Some(text)) == AgentLoopBudget::Unbounded,
{
    let s = lower(trimmed(text));
    assert(!is_digit(s[i]));
    assert(s[0] == '+' ==> trimmed(text)[0] == '+');
    lemma_only_digits_are_a_number(s, i, usize::MAX as nat);
}

/// With a limit the loop goes on after each attempt before the last, and not
/// after the last; without one it always goes on.
pub proof fn lemma_limit_is_kept(max_attempts: usize, attempt_index: int)
    ensures
        attempt_index < max_attempts ==> (AgentLoopBudget::Finite { max_attempts }).allows_more(
            attempt_index,
        ),
        attempt_index >= max_attempts ==> !(AgentLoopBudget::Finite { max_attempts }).allows_more(
            attempt_index,
        ),
        AgentLoopBudget::Unbounded.allows_more(attempt_index),
{
}

} // verus!
