//! What the planner's replies claim: work that is still to come, results,
//! failures, questions and obstacles.

use vstd::prelude::*;

use crate::spacing::{lemma_phrase_stands, lemma_phrase_survives, lemma_trimmed_phrase_was_there};
use crate::text::{
    after_prefix, begins_with, chars_of, contains, has_text, is_alnum, is_white, lower, starts_with,
    to_lower, trim, trimmed,
};

verus! {

/// The text begins with the phrase, and the phrase does not go on as a longer word.
pub open spec fn leads_with(text: Seq<char>, phrase: Seq<char>) -> bool {
    &&& starts_with(text, phrase)
    &&& (text.len() == phrase.len() || !(is_alnum(text[phrase.len() as int])
        || text[phrase.len() as int] == '_'))
}

/// Whether the text begins with the phrase as a phrase of its own.
pub fn text_starts_with_phrase(text: &str, phrase: &str) -> (found: bool)
    ensures
        found == leads_with(text@, phrase@),
{
    if !begins_with(text, phrase) {
        return false;
    }
    let chars = chars_of(text);
    let count = chars_of(phrase).len();
    count == chars.len() || !(crate::text::alphanumeric(chars[count]) || chars[count] == '_')
}

/// The text begins by saying what is being done.
pub open spec fn leads_with_doing(text: Seq<char>) -> bool {
    ||| leads_with(text, "opening"@)
    ||| leads_with(text, "searching"@)
    ||| leads_with(text, "browsing"@)
    ||| leads_with(text, "researching"@)
    ||| leads_with(text, "navigating"@)
    ||| leads_with(text, "looking up"@)
    ||| leads_with(text, "checking"@)
    ||| leads_with(text, "reading"@)
    ||| leads_with(text, "inspecting"@)
    ||| leads_with(text, "creating"@)
    ||| leads_with(text, "writing"@)
    ||| leads_with(text, "transforming"@)
    ||| leads_with(text, "verifying"@)
    ||| leads_with(text, "running"@)
    ||| leads_with(text, "executing"@)
}

/// The text begins by saying what will be done.
pub open spec fn leads_with_plan(text: Seq<char>) -> bool {
    ||| leads_with(text, "open"@)
    ||| leads_with(text, "search"@)
    ||| leads_with(text, "browse"@)
    ||| leads_with(text, "research"@)
    ||| leads_with(text, "navigate"@)
    ||| leads_with(text, "look up"@)
    ||| leads_with(text, "check"@)
    ||| leads_with(text, "read"@)
    ||| leads_with(text, "inspect"@)
    ||| leads_with(text, "create"@)
    ||| leads_with(text, "write"@)
    ||| leads_with(text, "transform"@)
    ||| leads_with(text, "verify"@)
    ||| leads_with(text, "run"@)
    ||| leads_with(text, "execute"@)
}

/// Whether the text begins by saying what is being done.
pub fn response_starts_with_pending_work_verb(text: &str) -> (found: bool)
    ensures
        found == leads_with_doing(text@),
{
    text_starts_with_phrase(text, "opening") || text_starts_with_phrase(text, "searching")
        || text_starts_with_phrase(text, "browsing")
        || text_starts_with_phrase(text, "researching")
        || text_starts_with_phrase(text, "navigating")
        || text_starts_with_phrase(text, "looking up")
        || text_starts_with_phrase(text, "checking") || text_starts_with_phrase(text, "reading")
        || text_starts_with_phrase(text, "inspecting")
        || text_starts_with_phrase(text, "creating") || text_starts_with_phrase(text, "writing")
        || text_starts_with_phrase(text, "transforming")
        || text_starts_with_phrase(text, "verifying")
        || text_starts_with_phrase(text, "running")
        || text_starts_with_phrase(text, "executing")
}

/// Whether the text begins by saying what will be done.
pub fn response_starts_with_future_pending_work_verb(text: &str) -> (found: bool)
    ensures
        found == leads_with_plan(text@),
{
    text_starts_with_phrase(text, "open") || text_starts_with_phrase(text, "search")
        || text_starts_with_phrase(text, "browse") || text_starts_with_phrase(text, "research")
        || text_starts_with_phrase(text, "navigate") || text_starts_with_phrase(text, "look up")
        || text_starts_with_phrase(text, "check") || text_starts_with_phrase(text, "read")
        || text_starts_with_phrase(text, "inspect") || text_starts_with_phrase(text, "create")
        || text_starts_with_phrase(text, "write") || text_starts_with_phrase(text, "transform")
        || text_starts_with_phrase(text, "verify") || text_starts_with_phrase(text, "run")
        || text_starts_with_phrase(text, "execute")
}

/// "I am" with work that is being done.
pub open spec fn says_doing(lower_response: Seq<char>) -> bool {
    ||| (starts_with(lower_response, "i'm "@) && leads_with_doing(
        lower_response.skip("i'm "@.len() as int),
    ))
    ||| (starts_with(lower_response, "i am "@) && leads_with_doing(
        lower_response.skip("i am "@.len() as int),
    ))
}

/// "I will" with work that is still to be done.
pub open spec fn says_will_do(lower_response: Seq<char>) -> bool {
    ||| (starts_with(lower_response, "i'll "@) && leads_with_plan(
        lower_response.skip("i'll "@.len() as int),
    ))
    ||| (starts_with(lower_response, "i will "@) && leads_with_plan(
        lower_response.skip("i will "@.len() as int),
    ))
}

fn doing_after(lower_response: &str, prefix: &str) -> (found: bool)
    ensures
        found == (starts_with(lower_response@, prefix@) && leads_with_doing(
            lower_response@.skip(prefix@.len() as int),
        )),
{
    match after_prefix(lower_response, prefix) {
        Some(rest) => response_starts_with_pending_work_verb(rest.as_str()),
        None => false,
    }
}

fn plan_after(lower_response: &str, prefix: &str) -> (found: bool)
    ensures
        found == (starts_with(lower_response@, prefix@) && leads_with_plan(
            lower_response@.skip(prefix@.len() as int),
        )),
{
    match after_prefix(lower_response, prefix) {
        Some(rest) => response_starts_with_future_pending_work_verb(rest.as_str()),
        None => false,
    }
}

/// Whether the reply says "I am" with work that is being done.
pub fn response_starts_with_first_person_pending_work(lower_response: &str) -> (found: bool)
    ensures
        found == says_doing(lower_response@),
{
    doing_after(lower_response, "i'm ") || doing_after(lower_response, "i am ")
}

/// Whether the reply says "I will" with work that is still to be done.
pub fn response_starts_with_future_tense_pending_work(lower_response: &str) -> (found: bool)
    ensures
        found == says_will_do(lower_response@),
{
    plan_after(lower_response, "i'll ") || plan_after(lower_response, "i will ")
}

/// The reply, in lower case, reports a failure.
pub open spec fn tells_failure(lower_response: Seq<char>) -> bool {
    ||| has_text(lower_response, "error:"@)
    ||| has_text(lower_response, "failed"@)
    ||| has_text(lower_response, "exited with status"@)
    ||| has_text(lower_response, "exit status"@)
    ||| has_text(lower_response, "return code"@)
    ||| has_text(lower_response, "returned code"@)
    ||| has_text(lower_response, "non-zero"@)
    ||| has_text(lower_response, "nonzero"@)
    ||| has_text(lower_response, "refused"@)
    ||| has_text(lower_response, "does not exist"@)
    ||| has_text(lower_response, "no such file or directory"@)
    ||| has_text(lower_response, "permission denied"@)
    ||| has_text(lower_response, "timed out"@)
    ||| has_text(lower_response, "timeout error"@)
    ||| has_text(lower_response, "server unavailable"@)
    ||| has_text(lower_response, "service unavailable"@)
    ||| has_text(lower_response, "planner service stayed unavailable"@)
    ||| has_text(lower_response, "temporarily unavailable"@)
    ||| has_text(lower_response, "command not found"@)
    ||| has_text(lower_response, "file not found"@)
}

/// Whether the reply, in lower case, reports a failure.
pub fn response_reports_terminal_failure(lower_response: &str) -> (found: bool)
    ensures
        found == tells_failure(lower_response@),
{
    contains(lower_response, "error:") || contains(lower_response, "failed")
        || contains(lower_response, "exited with status")
        || contains(lower_response, "exit status") || contains(lower_response, "return code")
        || contains(lower_response, "returned code") || contains(lower_response, "non-zero")
        || contains(lower_response, "nonzero") || contains(lower_response, "refused")
        || contains(lower_response, "does not exist")
        || contains(lower_response, "no such file or directory")
        || contains(lower_response, "permission denied")
        || contains(lower_response, "timed out") || contains(lower_response, "timeout error")
        || contains(lower_response, "server unavailable")
        || contains(lower_response, "service unavailable")
        || contains(lower_response, "planner service stayed unavailable")
        || contains(lower_response, "temporarily unavailable")
        || contains(lower_response, "command not found")
        || contains(lower_response, "file not found")
}

/// The reply speaks of work that is still to come.
pub open spec fn claims_pending(response: Seq<char>) -> bool {
    let l = lower(trimmed(response));
    &&& !tells_failure(l)
    &&& (starts_with(l, "let me "@) || says_will_do(l) || says_doing(l) || leads_with_doing(l))
}

/// Whether the reply speaks of work that is still to come.
pub fn planner_response_claims_pending_work(response: &str) -> (found: bool)
    ensures
        found == claims_pending(response@),
{
    let l = to_lower(trim(response).as_str());
    let l = l.as_str();
    if response_reports_terminal_failure(l) {
        return false;
    }
    if begins_with(l, "let me ") || response_starts_with_future_tense_pending_work(l)
        || response_starts_with_first_person_pending_work(l) {
        return true;
    }
    response_starts_with_pending_work_verb(l)
}

/// The reply, in lower case, is a question to the user.
pub open spec fn asks_user(lower_response: Seq<char>) -> bool {
    &&& has_text(lower_response, "?"@)
    &&& {
        ||| starts_with(lower_response, "what "@)
        ||| starts_with(lower_response, "which "@)
        ||| starts_with(lower_response, "who "@)
        ||| starts_with(lower_response, "where "@)
        ||| starts_with(lower_response, "when "@)
        ||| starts_with(lower_response, "how "@)
        ||| starts_with(lower_response, "why "@)
        ||| starts_with(lower_response, "can you "@)
        ||| starts_with(lower_response, "could you "@)
        ||| starts_with(lower_response, "would you "@)
        ||| starts_with(lower_response, "should i "@)
        ||| starts_with(lower_response, "do you "@)
        ||| starts_with(lower_response, "please "@)
    }
}

/// Whether the reply, in lower case, is a question to the user.
pub fn response_asks_direct_user_question(lower_response: &str) -> (found: bool)
    ensures
        found == asks_user(lower_response@),
{
    if !contains(lower_response, "?") {
        return false;
    }
    begins_with(lower_response, "what ") || begins_with(lower_response, "which ")
        || begins_with(lower_response, "who ") || begins_with(lower_response, "where ")
        || begins_with(lower_response, "when ") || begins_with(lower_response, "how ")
        || begins_with(lower_response, "why ") || begins_with(lower_response, "can you ")
        || begins_with(lower_response, "could you ")
        || begins_with(lower_response, "would you ") || begins_with(lower_response, "should i ")
        || begins_with(lower_response, "do you ") || begins_with(lower_response, "please ")
}

/// The reply asks the user to say more.
pub open spec fn wants_clarification(response: Seq<char>) -> bool {
    let l = lower(trimmed(response));
    ||| asks_user(l)
    ||| has_text(l, "please clarify"@)
    ||| has_text(l, "can you clarify"@)
    ||| has_text(l, "could you clarify"@)
    ||| has_text(l, "clarify which"@)
    ||| has_text(l, "clarify what"@)
    ||| has_text(l, "need clarification"@)
    ||| has_text(l, "needs clarification"@)
    ||| has_text(l, "request is ambiguous"@)
    ||| has_text(l, "goal is ambiguous"@)
    ||| has_text(l, "task is ambiguous"@)
    ||| has_text(l, "ambiguous; please"@)
    ||| has_text(l, "ambiguous, please"@)
}

/// Whether the reply asks the user to say more.
pub fn response_requests_clarification(response: &str) -> (found: bool)
    ensures
        found == wants_clarification(response@),
{
    let l = to_lower(trim(response).as_str());
    let l = l.as_str();
    response_asks_direct_user_question(l)
        || contains(l, "please clarify") || contains(l, "can you clarify")
            || contains(l, "could you clarify") || contains(l, "clarify which")
            || contains(l, "clarify what") || contains(l, "need clarification")
            || contains(l, "needs clarification") || contains(l, "request is ambiguous")
            || contains(l, "goal is ambiguous") || contains(l, "task is ambiguous")
            || contains(l, "ambiguous; please") || contains(l, "ambiguous, please")
}

/// The reply names something that keeps the agent from going on.
pub open spec fn tells_blocker(response: Seq<char>) -> bool {
    let l = lower(trimmed(response));
    ||| has_text(l, "need permission"@)
    ||| has_text(l, "needs permission"@)
    ||| has_text(l, "requires permission"@)
    ||| has_text(l, "permission is required"@)
    ||| has_text(l, "permission denied"@)
    ||| has_text(l, "need authorization"@)
    ||| has_text(l, "needs authorization"@)
    ||| has_text(l, "requires authorization"@)
    ||| has_text(l, "authorization is required"@)
    ||| has_text(l, "please authorize"@)
    ||| has_text(l, "authorize me"@)
    ||| has_text(l, "please sign in"@)
    ||| has_text(l, "need you to sign in"@)
    ||| has_text(l, "need to sign in"@)
    ||| has_text(l, "needs you to sign in"@)
    ||| has_text(l, "needs to sign in"@)
    ||| has_text(l, "requires sign in"@)
    ||| has_text(l, "sign in required"@)
    ||| has_text(l, "please log in"@)
    ||| has_text(l, "need you to log in"@)
    ||| has_text(l, "need to log in"@)
    ||| has_text(l, "needs you to log in"@)
    ||| has_text(l, "needs to log in"@)
    ||| has_text(l, "requires login"@)
    ||| has_text(l, "login required"@)
    ||| has_text(l, "log in required"@)
    ||| has_text(l, "log in to continue"@)
    ||| has_text(l, "access denied"@)
    ||| has_text(l, "need access"@)
    ||| has_text(l, "needs access"@)
    ||| has_text(l, "requires access"@)
    ||| has_text(l, "blocked by login"@)
    ||| has_text(l, "blocked by permission"@)
    ||| has_text(l, "blocked by authorization"@)
    ||| has_text(l, "blocked because i"@)
    ||| has_text(l, "blocked because the task"@)
    ||| has_text(l, "i am not allowed"@)
    ||| has_text(l, "not allowed to"@)
    ||| has_text(l, "unsafe to continue"@)
    ||| has_text(l, "not safe to continue"@)
}

/// Whether the reply names something that keeps the agent from going on.
pub fn response_reports_blocker(response: &str) -> (found: bool)
    ensures
        found == tells_blocker(response@),
{
    let l = to_lower(trim(response).as_str());
    let l = l.as_str();
    contains(l, "need permission") || contains(l, "needs permission")
        || contains(l, "requires permission") || contains(l, "permission is required")
        || contains(l, "permission denied") || contains(l, "need authorization")
        || contains(l, "needs authorization") || contains(l, "requires authorization")
        || contains(l, "authorization is required") || contains(l, "please authorize")
        || contains(l, "authorize me") || contains(l, "please sign in")
        || contains(l, "need you to sign in") || contains(l, "need to sign in")
        || contains(l, "needs you to sign in") || contains(l, "needs to sign in")
        || contains(l, "requires sign in") || contains(l, "sign in required")
        || contains(l, "please log in") || contains(l, "need you to log in")
        || contains(l, "need to log in") || contains(l, "needs you to log in")
        || contains(l, "needs to log in") || contains(l, "requires login")
        || contains(l, "login required") || contains(l, "log in required")
        || contains(l, "log in to continue") || contains(l, "access denied")
        || contains(l, "need access") || contains(l, "needs access")
        || contains(l, "requires access") || contains(l, "blocked by login")
        || contains(l, "blocked by permission") || contains(l, "blocked by authorization")
        || contains(l, "blocked because i") || contains(l, "blocked because the task")
        || contains(l, "i am not allowed") || contains(l, "not allowed to")
        || contains(l, "unsafe to continue") || contains(l, "not safe to continue")
}

/// The reply claims a result that was seen.
pub open spec fn claims_result(response: Seq<char>) -> bool {
    let l = lower(response);
    &&& !claims_pending(response)
    &&& {
        ||| has_text(l, "verified"@)
        ||| has_text(l, "result"@)
        ||| has_text(l, "visible"@)
        ||| has_text(l, "displayed"@)
        ||| has_text(l, "shows"@)
        ||| has_text(l, "title"@)
        ||| has_text(l, "reads"@)
        ||| has_text(l, "contains"@)
        ||| has_text(l, "contents"@)
        ||| has_text(l, "according to"@)
        ||| has_text(l, "based on"@)
        ||| has_text(l, "documentation"@)
        ||| has_text(l, "official"@)
        ||| has_text(l, "source"@)
    }
}

/// Whether the reply claims a result that was seen.
pub fn final_response_claims_verified_result(response: &str) -> (found: bool)
    ensures
        found == claims_result(response@),
{
    let l = to_lower(response);
    let l = l.as_str();
    !planner_response_claims_pending_work(response) && (
    contains(l, "verified") || contains(l, "result") || contains(l, "visible")
        || contains(l, "displayed") || contains(l, "shows") || contains(l, "title")
        || contains(l, "reads") || contains(l, "contains") || contains(l, "contents")
        || contains(l, "according to") || contains(l, "based on")
        || contains(l, "documentation") || contains(l, "official") || contains(l, "source"))
}

/// The reply reports a failure of what was done.
pub open spec fn claims_failure(response: Seq<char>) -> bool {
    !claims_pending(response) && tells_failure(lower(response))
}

/// Whether the reply reports a failure of what was done.
pub fn final_response_reports_prior_failure(response: &str) -> (found: bool)
    ensures
        found == claims_failure(response@),
{
    !planner_response_claims_pending_work(response) && response_reports_terminal_failure(
        to_lower(response).as_str(),
    )
}

/// The reply says that nothing was found.
pub open spec fn claims_not_found(response: Seq<char>) -> bool {
    let l = lower(response);
    &&& !claims_pending(response)
    &&& {
        ||| has_text(l, "phrase was not found"@)
        ||| has_text(l, "text was not found"@)
        ||| has_text(l, "target was not found"@)
        ||| has_text(l, "item was not found"@)
        ||| has_text(l, "result was not found"@)
        ||| has_text(l, "match was not found"@)
        ||| has_text(l, "no matching"@)
        ||| has_text(l, "no matches"@)
        ||| has_text(l, "zero matches"@)
        ||| has_text(l, "0 matches"@)
        ||| has_text(l, "match_count\":0"@)
        ||| has_text(l, "match_count: 0"@)
    }
}

/// Whether the reply says that nothing was found.
pub fn final_response_reports_not_found(response: &str) -> (found: bool)
    ensures
        found == claims_not_found(response@),
{
    let l = to_lower(response);
    let l = l.as_str();
    !planner_response_claims_pending_work(response) && (
    contains(l, "phrase was not found") || contains(l, "text was not found")
        || contains(l, "target was not found") || contains(l, "item was not found")
        || contains(l, "result was not found") || contains(l, "match was not found")
        || contains(l, "no matching") || contains(l, "no matches")
        || contains(l, "zero matches") || contains(l, "0 matches")
        || contains(l, "match_count\":0") || contains(l, "match_count: 0"))
}

/// A reply that speaks of work to come is never taken for a final one: it
/// claims no result, no failure and nothing missing.
pub proof fn lemma_pending_is_not_final(response: Seq<char>)
    requires
        claims_pending(response),
    ensures
        !claims_result(response),
        !claims_failure(response),
        !claims_not_found(response),
{
}

/// The words that name an obstacle.
pub open spec fn is_obstacle(phrase: Seq<char>) -> bool {
    ||| phrase == "need permission"@
    ||| phrase == "needs permission"@
    ||| phrase == "requires permission"@
    ||| phrase == "permission is required"@
    ||| phrase == "permission denied"@
    ||| phrase == "need authorization"@
    ||| phrase == "needs authorization"@
    ||| phrase == "requires authorization"@
    ||| phrase == "authorization is required"@
    ||| phrase == "please authorize"@
    ||| phrase == "authorize me"@
    ||| phrase == "please sign in"@
    ||| phrase == "need you to sign in"@
    ||| phrase == "need to sign in"@
    ||| phrase == "needs you to sign in"@
    ||| phrase == "needs to sign in"@
    ||| phrase == "requires sign in"@
    ||| phrase == "sign in required"@
    ||| phrase == "please log in"@
    ||| phrase == "need you to log in"@
    ||| phrase == "need to log in"@
    ||| phrase == "needs you to log in"@
    ||| phrase == "needs to log in"@
    ||| phrase == "requires login"@
    ||| phrase == "login required"@
    ||| phrase == "log in required"@
    ||| phrase == "log in to continue"@
    ||| phrase == "access denied"@
    ||| phrase == "need access"@
    ||| phrase == "needs access"@
    ||| phrase == "requires access"@
    ||| phrase == "blocked by login"@
    ||| phrase == "blocked by permission"@
    ||| phrase == "blocked by authorization"@
    ||| phrase == "blocked because i"@
    ||| phrase == "blocked because the task"@
    ||| phrase == "i am not allowed"@
    ||| phrase == "not allowed to"@
    ||| phrase == "unsafe to continue"@
    ||| phrase == "not safe to continue"@
}

proof fn lemma_plain_ends(phrase: Seq<char>, words: Seq<char>)
    requires
        lower(phrase) == words,
        words.len() > 0,
        !is_white(words[0]),
        !is_white(words.last()),
    ensures
        phrase.len() > 0,
        !is_white(phrase[0]),
        !is_white(phrase.last()),
{
    assert(lower(phrase)[0] == words[0]);
    assert(lower(phrase)[phrase.len() - 1] == words[words.len() - 1]);
}

/// A reply with words that name an obstacle names one, whatever stands around
/// them and however they are written.
pub proof fn lemma_obstacle_is_told(before: Seq<char>, phrase: Seq<char>, after: Seq<char>)
    requires
        is_obstacle(lower(phrase)),
    ensures
        tells_blocker(before + phrase + after),
{
    assert(phrase.len() > 0 && !is_white(phrase[0]) && !is_white(phrase.last())) by {
        if lower(phrase) == "need permission"@ {
            reveal_strlit("need permission");
            lemma_plain_ends(phrase, "need permission"@);
        }
        if lower(phrase) == "needs permission"@ {
            reveal_strlit("needs permission");
            lemma_plain_ends(phrase, "needs permission"@);
        }
        if lower(phrase) == "requires permission"@ {
            reveal_strlit("requires permission");
            lemma_plain_ends(phrase, "requires permission"@);
        }
        if lower(phrase) == "permission is required"@ {
            reveal_strlit("permission is required");
            lemma_plain_ends(phrase, "permission is required"@);
        }
        if lower(phrase) == "permission denied"@ {
            reveal_strlit("permission denied");
            lemma_plain_ends(phrase, "permission denied"@);
        }
        if lower(phrase) == "need authorization"@ {
            reveal_strlit("need authorization");
            lemma_plain_ends(phrase, "need authorization"@);
        }
        if lower(phrase) == "needs authorization"@ {
            reveal_strlit("needs authorization");
            lemma_plain_ends(phrase, "needs authorization"@);
        }
        if lower(phrase) == "requires authorization"@ {
            reveal_strlit("requires authorization");
            lemma_plain_ends(phrase, "requires authorization"@);
        }
        if lower(phrase) == "authorization is required"@ {
            reveal_strlit("authorization is required");
            lemma_plain_ends(phrase, "authorization is required"@);
        }
        if lower(phrase) == "please authorize"@ {
            reveal_strlit("please authorize");
            lemma_plain_ends(phrase, "please authorize"@);
        }
        if lower(phrase) == "authorize me"@ {
            reveal_strlit("authorize me");
            lemma_plain_ends(phrase, "authorize me"@);
        }
        if lower(phrase) == "please sign in"@ {
            reveal_strlit("please sign in");
            lemma_plain_ends(phrase, "please sign in"@);
        }
        if lower(phrase) == "need you to sign in"@ {
            reveal_strlit("need you to sign in");
            lemma_plain_ends(phrase, "need you to sign in"@);
        }
        if lower(phrase) == "need to sign in"@ {
            reveal_strlit("need to sign in");
            lemma_plain_ends(phrase, "need to sign in"@);
        }
        if lower(phrase) == "needs you to sign in"@ {
            reveal_strlit("needs you to sign in");
            lemma_plain_ends(phrase, "needs you to sign in"@);
        }
        if lower(phrase) == "needs to sign in"@ {
            reveal_strlit("needs to sign in");
            lemma_plain_ends(phrase, "needs to sign in"@);
        }
        if lower(phrase) == "requires sign in"@ {
            reveal_strlit("requires sign in");
            lemma_plain_ends(phrase, "requires sign in"@);
        }
        if lower(phrase) == "sign in required"@ {
            reveal_strlit("sign in required");
            lemma_plain_ends(phrase, "sign in required"@);
        }
        if lower(phrase) == "please log in"@ {
            reveal_strlit("please log in");
            lemma_plain_ends(phrase, "please log in"@);
        }
        if lower(phrase) == "need you to log in"@ {
            reveal_strlit("need you to log in");
            lemma_plain_ends(phrase, "need you to log in"@);
        }
        if lower(phrase) == "need to log in"@ {
            reveal_strlit("need to log in");
            lemma_plain_ends(phrase, "need to log in"@);
        }
        if lower(phrase) == "needs you to log in"@ {
            reveal_strlit("needs you to log in");
            lemma_plain_ends(phrase, "needs you to log in"@);
        }
        if lower(phrase) == "needs to log in"@ {
            reveal_strlit("needs to log in");
            lemma_plain_ends(phrase, "needs to log in"@);
        }
        if lower(phrase) == "requires login"@ {
            reveal_strlit("requires login");
            lemma_plain_ends(phrase, "requires login"@);
        }
        if lower(phrase) == "login required"@ {
            reveal_strlit("login required");
            lemma_plain_ends(phrase, "login required"@);
        }
        if lower(phrase) == "log in required"@ {
            reveal_strlit("log in required");
            lemma_plain_ends(phrase, "log in required"@);
        }
        if lower(phrase) == "log in to continue"@ {
            reveal_strlit("log in to continue");
            lemma_plain_ends(phrase, "log in to continue"@);
        }
        if lower(phrase) == "access denied"@ {
            reveal_strlit("access denied");
            lemma_plain_ends(phrase, "access denied"@);
        }
        if lower(phrase) == "need access"@ {
            reveal_strlit("need access");
            lemma_plain_ends(phrase, "need access"@);
        }
        if lower(phrase) == "needs access"@ {
            reveal_strlit("needs access");
            lemma_plain_ends(phrase, "needs access"@);
        }
        if lower(phrase) == "requires access"@ {
            reveal_strlit("requires access");
            lemma_plain_ends(phrase, "requires access"@);
        }
        if lower(phrase) == "blocked by login"@ {
            reveal_strlit("blocked by login");
            lemma_plain_ends(phrase, "blocked by login"@);
        }
        if lower(phrase) == "blocked by permission"@ {
            reveal_strlit("blocked by permission");
            lemma_plain_ends(phrase, "blocked by permission"@);
        }
        if lower(phrase) == "blocked by authorization"@ {
            reveal_strlit("blocked by authorization");
            lemma_plain_ends(phrase, "blocked by authorization"@);
        }
        if lower(phrase) == "blocked because i"@ {
            reveal_strlit("blocked because i");
            lemma_plain_ends(phrase, "blocked because i"@);
        }
        if lower(phrase) == "blocked because the task"@ {
            reveal_strlit("blocked because the task");
            lemma_plain_ends(phrase, "blocked because the task"@);
        }
        if lower(phrase) == "i am not allowed"@ {
            reveal_strlit("i am not allowed");
            lemma_plain_ends(phrase, "i am not allowed"@);
        }
        if lower(phrase) == "not allowed to"@ {
            reveal_strlit("not allowed to");
            lemma_plain_ends(phrase, "not allowed to"@);
        }
        if lower(phrase) == "unsafe to continue"@ {
            reveal_strlit("unsafe to continue");
            lemma_plain_ends(phrase, "unsafe to continue"@);
        }
        if lower(phrase) == "not safe to continue"@ {
            reveal_strlit("not safe to continue");
            lemma_plain_ends(phrase, "not safe to continue"@);
        }
    }
    lemma_phrase_survives(before, phrase, after);
}

/// A reply that names an obstacle has words for it.
pub proof fn lemma_told_obstacle_has_words(response: Seq<char>)
    requires
        tells_blocker(response),
    ensures
        exists|phrase: Seq<char>| is_obstacle(phrase) && #[trigger] has_text(lower(response), phrase),
{
    if has_text(lower(trimmed(response)), "need permission"@) {
        lemma_trimmed_phrase_was_there(response, "need permission"@);
        assert(is_obstacle("need permission"@));
    }
    if has_text(lower(trimmed(response)), "needs permission"@) {
        lemma_trimmed_phrase_was_there(response, "needs permission"@);
        assert(is_obstacle("needs permission"@));
    }
    if has_text(lower(trimmed(response)), "requires permission"@) {
        lemma_trimmed_phrase_was_there(response, "requires permission"@);
        assert(is_obstacle("requires permission"@));
    }
    if has_text(lower(trimmed(response)), "permission is required"@) {
        lemma_trimmed_phrase_was_there(response, "permission is required"@);
        assert(is_obstacle("permission is required"@));
    }
    if has_text(lower(trimmed(response)), "permission denied"@) {
        lemma_trimmed_phrase_was_there(response, "permission denied"@);
        assert(is_obstacle("permission denied"@));
    }
    if has_text(lower(trimmed(response)), "need authorization"@) {
        lemma_trimmed_phrase_was_there(response, "need authorization"@);
        assert(is_obstacle("need authorization"@));
    }
    if has_text(lower(trimmed(response)), "needs authorization"@) {
        lemma_trimmed_phrase_was_there(response, "needs authorization"@);
        assert(is_obstacle("needs authorization"@));
    }
    if has_text(lower(trimmed(response)), "requires authorization"@) {
        lemma_trimmed_phrase_was_there(response, "requires authorization"@);
        assert(is_obstacle("requires authorization"@));
    }
    if has_text(lower(trimmed(response)), "authorization is required"@) {
        lemma_trimmed_phrase_was_there(response, "authorization is required"@);
        assert(is_obstacle("authorization is required"@));
    }
    if has_text(lower(trimmed(response)), "please authorize"@) {
        lemma_trimmed_phrase_was_there(response, "please authorize"@);
        assert(is_obstacle("please authorize"@));
    }
    if has_text(lower(trimmed(response)), "authorize me"@) {
        lemma_trimmed_phrase_was_there(response, "authorize me"@);
        assert(is_obstacle("authorize me"@));
    }
    if has_text(lower(trimmed(response)), "please sign in"@) {
        lemma_trimmed_phrase_was_there(response, "please sign in"@);
        assert(is_obstacle("please sign in"@));
    }
    if has_text(lower(trimmed(response)), "need you to sign in"@) {
        lemma_trimmed_phrase_was_there(response, "need you to sign in"@);
        assert(is_obstacle("need you to sign in"@));
    }
    if has_text(lower(trimmed(response)), "need to sign in"@) {
        lemma_trimmed_phrase_was_there(response, "need to sign in"@);
        assert(is_obstacle("need to sign in"@));
    }
    if has_text(lower(trimmed(response)), "needs you to sign in"@) {
        lemma_trimmed_phrase_was_there(response, "needs you to sign in"@);
        assert(is_obstacle("needs you to sign in"@));
    }
    if has_text(lower(trimmed(response)), "needs to sign in"@) {
        lemma_trimmed_phrase_was_there(response, "needs to sign in"@);
        assert(is_obstacle("needs to sign in"@));
    }
    if has_text(lower(trimmed(response)), "requires sign in"@) {
        lemma_trimmed_phrase_was_there(response, "requires sign in"@);
        assert(is_obstacle("requires sign in"@));
    }
    if has_text(lower(trimmed(response)), "sign in required"@) {
        lemma_trimmed_phrase_was_there(response, "sign in required"@);
        assert(is_obstacle("sign in required"@));
    }
    if has_text(lower(trimmed(response)), "please log in"@) {
        lemma_trimmed_phrase_was_there(response, "please log in"@);
        assert(is_obstacle("please log in"@));
    }
    if has_text(lower(trimmed(response)), "need you to log in"@) {
        lemma_trimmed_phrase_was_there(response, "need you to log in"@);
        assert(is_obstacle("need you to log in"@));
    }
    if has_text(lower(trimmed(response)), "need to log in"@) {
        lemma_trimmed_phrase_was_there(response, "need to log in"@);
        assert(is_obstacle("need to log in"@));
    }
    if has_text(lower(trimmed(response)), "needs you to log in"@) {
        lemma_trimmed_phrase_was_there(response, "needs you to log in"@);
        assert(is_obstacle("needs you to log in"@));
    }
    if has_text(lower(trimmed(response)), "needs to log in"@) {
        lemma_trimmed_phrase_was_there(response, "needs to log in"@);
        assert(is_obstacle("needs to log in"@));
    }
    if has_text(lower(trimmed(response)), "requires login"@) {
        lemma_trimmed_phrase_was_there(response, "requires login"@);
        assert(is_obstacle("requires login"@));
    }
    if has_text(lower(trimmed(response)), "login required"@) {
        lemma_trimmed_phrase_was_there(response, "login required"@);
        assert(is_obstacle("login required"@));
    }
    if has_text(lower(trimmed(response)), "log in required"@) {
        lemma_trimmed_phrase_was_there(response, "log in required"@);
        assert(is_obstacle("log in required"@));
    }
    if has_text(lower(trimmed(response)), "log in to continue"@) {
        lemma_trimmed_phrase_was_there(response, "log in to continue"@);
        assert(is_obstacle("log in to continue"@));
    }
    if has_text(lower(trimmed(response)), "access denied"@) {
        lemma_trimmed_phrase_was_there(response, "access denied"@);
        assert(is_obstacle("access denied"@));
    }
    if has_text(lower(trimmed(response)), "need access"@) {
        lemma_trimmed_phrase_was_there(response, "need access"@);
        assert(is_obstacle("need access"@));
    }
    if has_text(lower(trimmed(response)), "needs access"@) {
        lemma_trimmed_phrase_was_there(response, "needs access"@);
        assert(is_obstacle("needs access"@));
    }
    if has_text(lower(trimmed(response)), "requires access"@) {
        lemma_trimmed_phrase_was_there(response, "requires access"@);
        assert(is_obstacle("requires access"@));
    }
    if has_text(lower(trimmed(response)), "blocked by login"@) {
        lemma_trimmed_phrase_was_there(response, "blocked by login"@);
        assert(is_obstacle("blocked by login"@));
    }
    if has_text(lower(trimmed(response)), "blocked by permission"@) {
        lemma_trimmed_phrase_was_there(response, "blocked by permission"@);
        assert(is_obstacle("blocked by permission"@));
    }
    if has_text(lower(trimmed(response)), "blocked by authorization"@) {
        lemma_trimmed_phrase_was_there(response, "blocked by authorization"@);
        assert(is_obstacle("blocked by authorization"@));
    }
    if has_text(lower(trimmed(response)), "blocked because i"@) {
        lemma_trimmed_phrase_was_there(response, "blocked because i"@);
        assert(is_obstacle("blocked because i"@));
    }
    if has_text(lower(trimmed(response)), "blocked because the task"@) {
        lemma_trimmed_phrase_was_there(response, "blocked because the task"@);
        assert(is_obstacle("blocked because the task"@));
    }
    if has_text(lower(trimmed(response)), "i am not allowed"@) {
        lemma_trimmed_phrase_was_there(response, "i am not allowed"@);
        assert(is_obstacle("i am not allowed"@));
    }
    if has_text(lower(trimmed(response)), "not allowed to"@) {
        lemma_trimmed_phrase_was_there(response, "not allowed to"@);
        assert(is_obstacle("not allowed to"@));
    }
    if has_text(lower(trimmed(response)), "unsafe to continue"@) {
        lemma_trimmed_phrase_was_there(response, "unsafe to continue"@);
        assert(is_obstacle("unsafe to continue"@));
    }
    if has_text(lower(trimmed(response)), "not safe to continue"@) {
        lemma_trimmed_phrase_was_there(response, "not safe to continue"@);
        assert(is_obstacle("not safe to continue"@));
    }
}

/// The words of a reply that claims a result.
pub open spec fn is_result_word(phrase: Seq<char>) -> bool {
    ||| phrase == "verified"@
    ||| phrase == "result"@
    ||| phrase == "visible"@
    ||| phrase == "displayed"@
    ||| phrase == "shows"@
    ||| phrase == "title"@
    ||| phrase == "reads"@
    ||| phrase == "contains"@
    ||| phrase == "contents"@
    ||| phrase == "according to"@
    ||| phrase == "based on"@
    ||| phrase == "documentation"@
    ||| phrase == "official"@
    ||| phrase == "source"@
}

/// A reply with such words claims a result, if it promises no more work.
pub proof fn lemma_result_is_claimed(before: Seq<char>, phrase: Seq<char>, after: Seq<char>)
    requires
        is_result_word(lower(phrase)),
        !claims_pending(before + phrase + after),
    ensures
        claims_result(before + phrase + after),
{
    lemma_phrase_stands(before, phrase, after);
}

/// A reply that claims a result has such words.
pub proof fn lemma_claimed_result_has_words(response: Seq<char>)
    requires
        claims_result(response),
    ensures
        exists|phrase: Seq<char>| is_result_word(phrase) && #[trigger] has_text(lower(response), phrase),
{
    assert(is_result_word("verified"@));
    assert(is_result_word("result"@));
    assert(is_result_word("visible"@));
    assert(is_result_word("displayed"@));
    assert(is_result_word("shows"@));
    assert(is_result_word("title"@));
    assert(is_result_word("reads"@));
    assert(is_result_word("contains"@));
    assert(is_result_word("contents"@));
    assert(is_result_word("according to"@));
    assert(is_result_word("based on"@));
    assert(is_result_word("documentation"@));
    assert(is_result_word("official"@));
    assert(is_result_word("source"@));
}

/// The words of a reply that claims that nothing was found.
pub open spec fn is_not_found_word(phrase: Seq<char>) -> bool {
    ||| phrase == "phrase was not found"@
    ||| phrase == "text was not found"@
    ||| phrase == "target was not found"@
    ||| phrase == "item was not found"@
    ||| phrase == "result was not found"@
    ||| phrase == "match was not found"@
    ||| phrase == "no matching"@
    ||| phrase == "no matches"@
    ||| phrase == "zero matches"@
    ||| phrase == "0 matches"@
    ||| phrase == "match_count\":0"@
    ||| phrase == "match_count: 0"@
}

/// A reply with such words claims that nothing was found, if it promises no more
/// work.
pub proof fn lemma_not_found_is_claimed(before: Seq<char>, phrase: Seq<char>, after: Seq<char>)
    requires
        is_not_found_word(lower(phrase)),
        !claims_pending(before + phrase + after),
    ensures
        claims_not_found(before + phrase + after),
{
    lemma_phrase_stands(before, phrase, after);
}

/// A reply that claims that nothing was found has such words.
pub proof fn lemma_claimed_not_found_has_words(response: Seq<char>)
    requires
        claims_not_found(response),
    ensures
        exists|phrase: Seq<char>| is_not_found_word(phrase) && #[trigger] has_text(lower(response), phrase),
{
    assert(is_not_found_word("phrase was not found"@));
    assert(is_not_found_word("text was not found"@));
    assert(is_not_found_word("target was not found"@));
    assert(is_not_found_word("item was not found"@));
    assert(is_not_found_word("result was not found"@));
    assert(is_not_found_word("match was not found"@));
    assert(is_not_found_word("no matching"@));
    assert(is_not_found_word("no matches"@));
    assert(is_not_found_word("zero matches"@));
    assert(is_not_found_word("0 matches"@));
    assert(is_not_found_word("match_count\":0"@));
    assert(is_not_found_word("match_count: 0"@));
}

/// The words of a reply that reports a failure.
pub open spec fn is_failure_word(phrase: Seq<char>) -> bool {
    ||| phrase == "error:"@
    ||| phrase == "failed"@
    ||| phrase == "exited with status"@
    ||| phrase == "exit status"@
    ||| phrase == "return code"@
    ||| phrase == "returned code"@
    ||| phrase == "non-zero"@
    ||| phrase == "nonzero"@
    ||| phrase == "refused"@
    ||| phrase == "does not exist"@
    ||| phrase == "no such file or directory"@
    ||| phrase == "permission denied"@
    ||| phrase == "timed out"@
    ||| phrase == "timeout error"@
    ||| phrase == "server unavailable"@
    ||| phrase == "service unavailable"@
    ||| phrase == "planner service stayed unavailable"@
    ||| phrase == "temporarily unavailable"@
    ||| phrase == "command not found"@
    ||| phrase == "file not found"@
}

/// A reply with such words reports a failure.
pub proof fn lemma_failure_is_claimed(before: Seq<char>, phrase: Seq<char>, after: Seq<char>)
    requires
        is_failure_word(lower(phrase)),
        !claims_pending(before + phrase + after),
    ensures
        claims_failure(before + phrase + after),
{
    lemma_phrase_stands(before, phrase, after);
}

/// A reply that reports a failure has such words.
pub proof fn lemma_claimed_failure_has_words(response: Seq<char>)
    requires
        claims_failure(response),
    ensures
        exists|phrase: Seq<char>| is_failure_word(phrase) && #[trigger] has_text(lower(response), phrase),
{
    assert(is_failure_word("error:"@));
    assert(is_failure_word("failed"@));
    assert(is_failure_word("exited with status"@));
    assert(is_failure_word("exit status"@));
    assert(is_failure_word("return code"@));
    assert(is_failure_word("returned code"@));
    assert(is_failure_word("non-zero"@));
    assert(is_failure_word("nonzero"@));
    assert(is_failure_word("refused"@));
    assert(is_failure_word("does not exist"@));
    assert(is_failure_word("no such file or directory"@));
    assert(is_failure_word("permission denied"@));
    assert(is_failure_word("timed out"@));
    assert(is_failure_word("timeout error"@));
    assert(is_failure_word("server unavailable"@));
    assert(is_failure_word("service unavailable"@));
    assert(is_failure_word("planner service stayed unavailable"@));
    assert(is_failure_word("temporarily unavailable"@));
    assert(is_failure_word("command not found"@));
    assert(is_failure_word("file not found"@));
}

/// The verbs of work that is being done.
pub open spec fn is_doing_verb(phrase: Seq<char>) -> bool {
    ||| phrase == "opening"@
    ||| phrase == "searching"@
    ||| phrase == "browsing"@
    ||| phrase == "researching"@
    ||| phrase == "navigating"@
    ||| phrase == "looking up"@
    ||| phrase == "checking"@
    ||| phrase == "reading"@
    ||| phrase == "inspecting"@
    ||| phrase == "creating"@
    ||| phrase == "writing"@
    ||| phrase == "transforming"@
    ||| phrase == "verifying"@
    ||| phrase == "running"@
    ||| phrase == "executing"@
}

/// The verbs of work that is to be done.
pub open spec fn is_plan_verb(phrase: Seq<char>) -> bool {
    ||| phrase == "open"@
    ||| phrase == "search"@
    ||| phrase == "browse"@
    ||| phrase == "research"@
    ||| phrase == "navigate"@
    ||| phrase == "look up"@
    ||| phrase == "check"@
    ||| phrase == "read"@
    ||| phrase == "inspect"@
    ||| phrase == "create"@
    ||| phrase == "write"@
    ||| phrase == "transform"@
    ||| phrase == "verify"@
    ||| phrase == "run"@
    ||| phrase == "execute"@
}

/// The words that a question to the user begins with.
pub open spec fn is_question_start(phrase: Seq<char>) -> bool {
    ||| phrase == "what "@
    ||| phrase == "which "@
    ||| phrase == "who "@
    ||| phrase == "where "@
    ||| phrase == "when "@
    ||| phrase == "how "@
    ||| phrase == "why "@
    ||| phrase == "can you "@
    ||| phrase == "could you "@
    ||| phrase == "would you "@
    ||| phrase == "should i "@
    ||| phrase == "do you "@
    ||| phrase == "please "@
}

/// The words that ask for clarification.
pub open spec fn is_clarification_word(phrase: Seq<char>) -> bool {
    ||| phrase == "please clarify"@
    ||| phrase == "can you clarify"@
    ||| phrase == "could you clarify"@
    ||| phrase == "clarify which"@
    ||| phrase == "clarify what"@
    ||| phrase == "need clarification"@
    ||| phrase == "needs clarification"@
    ||| phrase == "request is ambiguous"@
    ||| phrase == "goal is ambiguous"@
    ||| phrase == "task is ambiguous"@
    ||| phrase == "ambiguous; please"@
    ||| phrase == "ambiguous, please"@
}

/// What follows a verb is no part of it.
pub open spec fn ends_a_word(after: Seq<char>) -> bool {
    after.len() == 0 || !(is_alnum(after[0]) || after[0] == '_')
}

/// A text begins with a phrase exactly if the phrase stands at its start and no
/// letter, digit or underscore follows.
pub proof fn lemma_phrase_leads(phrase: Seq<char>, after: Seq<char>)
    ensures
        leads_with(phrase + after, phrase) <==> ends_a_word(after),
        starts_with(phrase + after, phrase),
        (phrase + after).skip(phrase.len() as int) == after,
{
    assert((phrase + after).subrange(0, phrase.len() as int) =~= phrase);
    assert((phrase + after).skip(phrase.len() as int) =~= after);
    if after.len() > 0 {
        assert((phrase + after)[phrase.len() as int] == after[0]);
    }
}

/// A reply that says what is being done or will be done next promises more work,
/// unless it reports a failure.
pub proof fn lemma_promise_is_pending(response: Seq<char>, verb: Seq<char>, after: Seq<char>)
    requires
        ends_a_word(after),
        forall|word: Seq<char>| is_failure_word(word) ==> !#[trigger] has_text(
            lower(trimmed(response)),
            word,
        ),
    ensures
        is_doing_verb(verb) && lower(trimmed(response)) == verb + after ==> claims_pending(response),
        is_doing_verb(verb) && lower(trimmed(response)) == "i'm "@ + (verb + after) ==> claims_pending(
            response,
        ),
        is_doing_verb(verb) && lower(trimmed(response)) == "i am "@ + (verb + after) ==> claims_pending(
            response,
        ),
        is_plan_verb(verb) && lower(trimmed(response)) == "i'll "@ + (verb + after) ==> claims_pending(
            response,
        ),
        is_plan_verb(verb) && lower(trimmed(response)) == "i will "@ + (verb + after)
            ==> claims_pending(response),
        lower(trimmed(response)) == "let me "@ + after ==> claims_pending(response),
{
    let rest = verb + after;
    let l = lower(trimmed(response));
    lemma_phrase_leads(verb, after);
    lemma_phrase_leads("i'm "@, rest);
    lemma_phrase_leads("i am "@, rest);
    lemma_phrase_leads("i'll "@, rest);
    lemma_phrase_leads("i will "@, rest);
    lemma_phrase_leads("let me "@, after);
    assert(!tells_failure(l)) by {
        assert(is_failure_word("error:"@));
        assert(is_failure_word("failed"@));
        assert(is_failure_word("exited with status"@));
        assert(is_failure_word("exit status"@));
        assert(is_failure_word("return code"@));
        assert(is_failure_word("returned code"@));
        assert(is_failure_word("non-zero"@));
        assert(is_failure_word("nonzero"@));
        assert(is_failure_word("refused"@));
        assert(is_failure_word("does not exist"@));
        assert(is_failure_word("no such file or directory"@));
        assert(is_failure_word("permission denied"@));
        assert(is_failure_word("timed out"@));
        assert(is_failure_word("timeout error"@));
        assert(is_failure_word("server unavailable"@));
        assert(is_failure_word("service unavailable"@));
        assert(is_failure_word("planner service stayed unavailable"@));
        assert(is_failure_word("temporarily unavailable"@));
        assert(is_failure_word("command not found"@));
        assert(is_failure_word("file not found"@));
    }
    assert(is_doing_verb(verb) ==> leads_with_doing(rest));
    assert(is_plan_verb(verb) ==> leads_with_plan(rest));
}

/// A reply that reports a failure promises no more work, and neither does one that
/// begins in another way.
pub proof fn lemma_pending_begins_with_a_promise(response: Seq<char>)
    requires
        claims_pending(response),
    ensures
        ({
            let l = lower(trimmed(response));
            &&& forall|word: Seq<char>| is_failure_word(word) ==> !#[trigger] has_text(l, word)
            &&& starts_with(l, "let me "@) || starts_with(l, "i'm "@) || starts_with(l, "i am "@)
                || starts_with(l, "i'll "@) || starts_with(l, "i will "@) || exists|
                verb: Seq<char>,
            |
                is_doing_verb(verb) && #[trigger] starts_with(l, verb)
        }),
{
    let l = lower(trimmed(response));
    if leads_with_doing(l) {
        assert(is_doing_verb("opening"@));
        assert(is_doing_verb("searching"@));
        assert(is_doing_verb("browsing"@));
        assert(is_doing_verb("researching"@));
        assert(is_doing_verb("navigating"@));
        assert(is_doing_verb("looking up"@));
        assert(is_doing_verb("checking"@));
        assert(is_doing_verb("reading"@));
        assert(is_doing_verb("inspecting"@));
        assert(is_doing_verb("creating"@));
        assert(is_doing_verb("writing"@));
        assert(is_doing_verb("transforming"@));
        assert(is_doing_verb("verifying"@));
        assert(is_doing_verb("running"@));
        assert(is_doing_verb("executing"@));
    }
}

/// A question to the user begins like one and has a question mark; a reply that
/// asks one, or uses words that ask for clarification, wants it.
pub proof fn lemma_question_wants_clarification(
    response: Seq<char>,
    start: Seq<char>,
    phrase: Seq<char>,
)
    ensures
        is_question_start(start) && starts_with(lower(trimmed(response)), start) && has_text(
            lower(trimmed(response)),
            "?"@,
        ) ==> wants_clarification(response),
        is_clarification_word(phrase) && has_text(lower(trimmed(response)), phrase)
            ==> wants_clarification(response),
        (forall|word: Seq<char>| is_clarification_word(word) ==> !#[trigger] has_text(
            lower(trimmed(response)),
            word,
        )) && !has_text(lower(trimmed(response)), "?"@) ==> !wants_clarification(response),
        (forall|word: Seq<char>| is_clarification_word(word) ==> !#[trigger] has_text(
            lower(trimmed(response)),
            word,
        )) && (forall|word: Seq<char>| is_question_start(word) ==> !#[trigger] starts_with(
            lower(trimmed(response)),
            word,
        )) ==> !wants_clarification(response),
{
    assert(is_clarification_word("please clarify"@));
    assert(is_clarification_word("can you clarify"@));
    assert(is_clarification_word("could you clarify"@));
    assert(is_clarification_word("clarify which"@));
    assert(is_clarification_word("clarify what"@));
    assert(is_clarification_word("need clarification"@));
    assert(is_clarification_word("needs clarification"@));
    assert(is_clarification_word("request is ambiguous"@));
    assert(is_clarification_word("goal is ambiguous"@));
    assert(is_clarification_word("task is ambiguous"@));
    assert(is_clarification_word("ambiguous; please"@));
    assert(is_clarification_word("ambiguous, please"@));
    assert(is_question_start("what "@));
    assert(is_question_start("which "@));
    assert(is_question_start("who "@));
    assert(is_question_start("where "@));
    assert(is_question_start("when "@));
    assert(is_question_start("how "@));
    assert(is_question_start("why "@));
    assert(is_question_start("can you "@));
    assert(is_question_start("could you "@));
    assert(is_question_start("would you "@));
    assert(is_question_start("should i "@));
    assert(is_question_start("do you "@));
    assert(is_question_start("please "@));
}

} // verus!
