//! Short texts for the user: what a turn is doing, and how far it got.

use vstd::prelude::*;

use crate::attempt::{attempt_views, AttemptView, PlanAttemptContext};
use crate::json::{array_field, text_field, views, Json, JsonView};
use crate::step::{kind_is, text_items, text_words};
use crate::text::{
    contains, decimal, decimal_of, has_text, join, joined, lemma_long_text_is_cut, lower, occurs_at,
    opt_text, same, shorten, shortened, squeeze, squeezed, starts_with, texts, to_lower,
};

verus! {

/// A text in one line, at most `limit` characters long.
pub fn compact_progress_text(value: &str, limit: usize) -> (result: String)
    ensures
        result@ == shortened(squeezed(value@), limit as nat),
{
    shorten(squeeze(value).as_str(), limit)
}

/// A flag of Aegis that is followed by its value.
pub open spec fn takes_value(arg: Seq<char>) -> bool {
    arg == "--server-addr"@ || arg == "--profile"@ || arg == "--mode"@
}

/// The arguments that say what Aegis does: without its settings.
pub open spec fn telling_args(args: Seq<Seq<char>>) -> Seq<Seq<char>>
    decreases args.len(),
{
    if args.len() == 0 {
        Seq::empty()
    } else if takes_value(args[0]) {
        if args.len() > 1 {
            telling_args(args.skip(2))
        } else {
            Seq::empty()
        }
    } else if args[0] == "headless"@ || args[0] == "headful"@ {
        telling_args(args.skip(1))
    } else {
        seq![args[0]] + telling_args(args.skip(1))
    }
}

pub open spec fn aegis_label(args: Seq<Seq<char>>) -> Seq<char> {
    let telling = telling_args(args);
    if telling.len() == 0 {
        "using Aegis"@
    } else {
        "using Aegis `"@ + shortened(squeezed(joined(telling, " "@)), 90) + "`"@
    }
}

/// What an action does, in a few words; nothing for kinds that the user need
/// not hear of.
pub open spec fn progress_label(action: JsonView) -> Option<Seq<char>>
    decreases action,
{
    if kind_is(action, "aegis"@) {
        match array_field(action, "args"@) {
            Some(args) => Some(aegis_label(text_items(args))),
            None => None,
        }
    } else if kind_is(action, "shell_exec"@) {
        match text_field(action, "command"@) {
            Some(command) => Some(
                "running shell `"@ + shortened(squeezed(command), 80) + "`"@,
            ),
            None => None,
        }
    } else if kind_is(action, "open_app"@) {
        match text_field(action, "app_name"@) {
            Some(app) => Some("opening "@ + app),
            None => None,
        }
    } else if kind_is(action, "sequence"@) {
        match array_field(action, "actions"@) {
            Some(items) => Some(sequence_label(items.len(), last_label(items))),
            None => None,
        }
    } else if kind_is(action, "ctx"@) {
        Some("using ctx memory"@)
    } else if is_control(action) {
        Some("controlling the computer"@)
    } else {
        None
    }
}

/// The label of the last item that has one.
pub open spec fn last_label(items: Seq<JsonView>) -> Option<Seq<char>>
    decreases items,
{
    if items.len() == 0 {
        None
    } else {
        match progress_label(items[items.len() - 1]) {
            Some(label) => Some(label),
            None => last_label(items.subrange(0, items.len() - 1)),
        }
    }
}

pub open spec fn sequence_label(count: nat, detail: Option<Seq<char>>) -> Seq<char> {
    let head = "running a "@ + decimal(count) + "-action sequence"@;
    match detail {
        Some(detail) => head + " ending with "@ + detail,
        None => head,
    }
}

/// The action moves the mouse, presses keys or uses the clipboard.
pub open spec fn is_control(action: JsonView) -> bool {
    ||| kind_is(action, "mouse_click"@)
    ||| kind_is(action, "mouse_move"@)
    ||| kind_is(action, "mouse_drag"@)
    ||| kind_is(action, "key_press"@)
    ||| kind_is(action, "key_type"@)
    ||| kind_is(action, "key_paste"@)
    ||| kind_is(action, "clipboard_read"@)
    ||| kind_is(action, "clipboard_write"@)
}

fn telling_words(args: &Vec<String>) -> (result: Vec<String>)
    ensures
        texts(result@) == telling_args(texts(args@)),
{
    let ghost all = texts(args@);
    let mut result: Vec<String> = Vec::new();
    let mut i: usize = 0;
    assert(all.skip(0) =~= all);
    assert(texts(result@) + telling_args(all) =~= telling_args(all));
    while i < args.len()
        invariant
            i <= args@.len(),
            all == texts(args@),
            texts(result@) + telling_args(all.skip(i as int)) == telling_args(all),
        decreases args@.len() - i,
    {
        let ghost rest = all.skip(i as int);
        let arg = args[i].as_str();
        assert(rest[0] == arg@);
        assert(rest.skip(1) =~= all.skip(i + 1));
        if same(arg, "--server-addr") || same(arg, "--profile") || same(arg, "--mode") {
            if i + 1 < args.len() {
                assert(rest.skip(2) =~= all.skip(i + 2));
                i = i + 2;
            } else {
                assert(telling_args(rest) =~= Seq::empty());
                assert(all.skip(i + 1) =~= Seq::empty());
                i = i + 1;
            }
        } else if same(arg, "headless") || same(arg, "headful") {
            i = i + 1;
        } else {
            let ghost before = texts(result@);
            result.push(args[i].clone());
            assert(texts(result@) =~= before.push(arg@));
            assert(texts(result@) + telling_args(all.skip(i + 1)) =~= before + telling_args(rest));
            i = i + 1;
        }
    }
    assert(all.skip(i as int) =~= Seq::empty());
    assert(texts(result@) =~= telling_args(all));
    result
}

/// What Aegis does with its arguments.
fn label_for_args(args: &Vec<Json>) -> (label: String)
    ensures
        label@ == aegis_label(text_items(views(args@))),
{
    let words = telling_words(&text_words(args));
    assert(texts(words@).len() == words@.len());
    if words.len() == 0 {
        return "using Aegis".to_owned();
    }
    let mut label = "using Aegis `".to_owned();
    label.append(compact_progress_text(join(&words, " ").as_str(), 90).as_str());
    label.append("`");
    label
}

/// What an Aegis action does.
pub fn progress_aegis_label(action: &Json) -> (label: Option<String>)
    ensures
        opt_text(label) == (match array_field(action@, "args"@) {
            Some(args) => Some(aegis_label(text_items(args))),
            None => None,
        }),
{
    match action.get_array("args") {
        Some(args) => Some(label_for_args(args)),
        None => None,
    }
}

fn label_for_sequence(count: usize, detail: &Option<String>) -> (label: String)
    ensures
        label@ == sequence_label(count as nat, opt_text(*detail)),
{
    let mut label = "running a ".to_owned();
    label.append(decimal_of(count as u64).as_str());
    label.append("-action sequence");
    if let Some(detail) = detail {
        label.append(" ending with ");
        label.append(detail.as_str());
    }
    label
}

fn has_kind(action: &Json, kind: &str) -> (found: bool)
    ensures
        found == kind_is(action@, kind@),
{
    action.text_is("kind", kind)
}

/// What an action does, in a few words.
pub fn progress_action_label(action: &Json) -> (label: Option<String>)
    ensures
        opt_text(label) == progress_label(action@),
    decreases action,
{
    if has_kind(action, "aegis") {
        progress_aegis_label(action)
    } else if has_kind(action, "shell_exec") {
        match action.get_text("command") {
            Some(command) => {
                let mut label = "running shell `".to_owned();
                label.append(compact_progress_text(command.as_str(), 80).as_str());
                label.append("`");
                Some(label)
            },
            None => None,
        }
    } else if has_kind(action, "open_app") {
        match action.get_text("app_name") {
            Some(app) => {
                let mut label = "opening ".to_owned();
                label.append(app.as_str());
                Some(label)
            },
            None => None,
        }
    } else if has_kind(action, "sequence") {
        match action.get_array("actions") {
            Some(items) => {
                let ghost all = views(items@);
                let mut detail: Option<String> = None;
                let mut i: usize = items.len();
                assert(all.take(i as int) =~= all);
                while i > 0 && detail.is_none()
                    invariant
                        i <= items@.len(),
                        all == views(items@),
                        decreases_to!(action => items),
                        last_label(all) == (match detail {
                            Some(label) => Some(label@),
                            None => last_label(all.take(i as int)),
                        }),
                    decreases i,
                {
                    let ghost rest = all.take(i as int);
                    assert(rest[rest.len() - 1] == items@[i - 1]@);
                    assert(rest.subrange(0, rest.len() - 1) =~= all.take(i - 1));
                    assert(decreases_to!(items => items[i - 1]));
                    detail = progress_action_label(&items[i - 1]);
                    i = i - 1;
                }
                assert(opt_text(detail) == last_label(all)) by {
                    if detail is None {
                        assert(all.take(0).len() == 0);
                    }
                }
                Some(label_for_sequence(items.len(), &detail))
            },
            None => None,
        }
    } else if has_kind(action, "ctx") {
        Some("using ctx memory".to_owned())
    } else if has_kind(action, "mouse_click") || has_kind(action, "mouse_move") || has_kind(
        action,
        "mouse_drag",
    ) || has_kind(action, "key_press") || has_kind(action, "key_type") || has_kind(
        action,
        "key_paste",
    ) || has_kind(action, "clipboard_read") || has_kind(action, "clipboard_write") {
        Some("controlling the computer".to_owned())
    } else {
        None
    }
}

/// The label of the last attempt that has one.
pub open spec fn last_attempt_label(attempts: Seq<AttemptView>) -> Option<Seq<char>>
    decreases attempts.len(),
{
    if attempts.len() == 0 {
        None
    } else {
        let label = match attempts.last().action {
            Some(action) => progress_label(action),
            None => None,
        };
        match label {
            Some(label) => Some(label),
            None => last_attempt_label(attempts.drop_last()),
        }
    }
}

/// How far the attempts got.
pub open spec fn progress_summary(attempts: Seq<AttemptView>) -> Option<Seq<char>> {
    match last_attempt_label(attempts) {
        Some(label) => Some(
            decimal(attempts.len()) + " completed attempt"@ + (if attempts.len() == 1 {
                ""@
            } else {
                "s"@
            }) + "; last progress was "@ + label,
        ),
        None => None,
    }
}

/// How far the attempts got.
pub fn last_progress_summary(attempts: &Vec<PlanAttemptContext>) -> (summary: Option<String>)
    ensures
        opt_text(summary) == progress_summary(attempt_views(attempts@)),
{
    let ghost all = attempt_views(attempts@);
    let mut found: Option<String> = None;
    let mut i: usize = attempts.len();
    assert(all.take(i as int) =~= all);
    while i > 0 && found.is_none()
        invariant
            i <= attempts@.len(),
            all == attempt_views(attempts@),
            last_attempt_label(all) == (match found {
                Some(label) => Some(label@),
                None => last_attempt_label(all.take(i as int)),
            }),
        decreases i,
    {
        assert(all.take(i as int).last() == attempts@[i - 1]@);
        assert(all.take(i as int).drop_last() =~= all.take(i - 1));
        found = match &attempts[i - 1].action {
            Some(action) => progress_action_label(action),
            None => None,
        };
        i = i - 1;
    }
    match found {
        Some(label) => {
            let mut summary = decimal_of(attempts.len() as u64);
            summary.append(" completed attempt");
            summary.append(if attempts.len() == 1 {
                ""
            } else {
                "s"
            });
            summary.append("; last progress was ");
            summary.append(label.as_str());
            Some(summary)
        },
        None => {
            assert(all.take(0).len() == 0);
            None
        },
    }
}

/// Why the provider of the planner refused the account.
pub open spec fn account_reason(message: Seq<char>) -> Seq<char> {
    let l = lower(message);
    if has_text(l, "insufficient credits"@) {
        "insufficient provider credits"@
    } else if has_text(l, "prompt tokens limit exceeded"@) {
        "the provider prompt-token limit was exceeded"@
    } else if has_text(l, "402 payment required"@) {
        "the provider returned payment required"@
    } else {
        "the provider account could not accept the request"@
    }
}

/// What the user is told when the provider of the planner refuses the account.
pub open spec fn account_failure_reply(
    message: Seq<char>,
    attempts: Seq<AttemptView>,
) -> Seq<char> {
    match progress_summary(attempts) {
        Some(progress) => "Planner provider stopped the task after "@ + progress + ": "@
            + account_reason(message) + "."@,
        None => "Planner provider stopped the task: "@ + account_reason(message) + "."@,
    }
}

/// What the user is told when the provider of the planner refuses the account.
pub fn planning_provider_account_failure_message_with_attempts(
    message: &str,
    attempts: &Vec<PlanAttemptContext>,
) -> (reply: String)
    ensures
        reply@ == account_failure_reply(message@, attempt_views(attempts@)),
{
    let l = to_lower(message);
    let l = l.as_str();
    let reason = if contains(l, "insufficient credits") {
        "insufficient provider credits"
    } else if contains(l, "prompt tokens limit exceeded") {
        "the provider prompt-token limit was exceeded"
    } else if contains(l, "402 payment required") {
        "the provider returned payment required"
    } else {
        "the provider account could not accept the request"
    };
    match last_progress_summary(attempts) {
        Some(progress) => {
            let mut reply = "Planner provider stopped the task after ".to_owned();
            reply.append(progress.as_str());
            reply.append(": ");
            reply.append(reason);
            reply.append(".");
            reply
        },
        None => {
            let mut reply = "Planner provider stopped the task: ".to_owned();
            reply.append(reason);
            reply.append(".");
            reply
        },
    }
}

/// What the user is told when the key of the planner is missing.
pub open spec fn missing_key_reply(
    required: Seq<char>,
    planner_model: Seq<char>,
    attempts: Seq<AttemptView>,
) -> Seq<char> {
    let head = required + " is required for planner model "@ + planner_model;
    match progress_summary(attempts) {
        Some(progress) => head + "; stopped after "@ + progress + "."@,
        None => head + "."@,
    }
}

/// What the user is told when the key of the planner is missing.
pub fn planning_credentials_missing_message_with_attempts(
    required: &str,
    planner_model: &str,
    attempts: &Vec<PlanAttemptContext>,
) -> (reply: String)
    ensures
        reply@ == missing_key_reply(required@, planner_model@, attempt_views(attempts@)),
{
    let mut reply = required.to_owned();
    reply.append(" is required for planner model ");
    reply.append(planner_model);
    if let Some(progress) = last_progress_summary(attempts) {
        reply.append("; stopped after ");
        reply.append(progress.as_str());
    }
    reply.append(".");
    reply
}

pub const VOICE_STEP_LABEL_MAX: usize = 96;

pub const VOICE_STEP_TTL_MS: u64 = 5_000;

pub const VOICE_STEP_TIMEOUT_MS: u64 = 120;

pub const VOICE_STEP_FLUSH_TIMEOUT_MS: u64 = 120;

pub const VOICE_STEP_SOURCE: &'static str = "voice";

/// The label of a step: its kind, and what it is about, in one line.
pub open spec fn step_label(kind: Seq<char>, value: Seq<char>) -> Seq<char> {
    shortened(
        if squeezed(value).len() == 0 {
            kind
        } else {
            kind + ": "@ + squeezed(value)
        },
        VOICE_STEP_LABEL_MAX as nat,
    )
}

/// The label of a step: its kind, and what it is about, in one line.
pub fn voice_step_label(kind: &str, value: &str) -> (label: String)
    ensures
        label@ == step_label(kind@, value@),
{
    let compact = squeeze(value);
    let mut label = kind.to_owned();
    if !compact.as_str().is_empty() {
        label.append(": ");
        label.append(compact.as_str());
    }
    truncate_step_label(label)
}

/// A label that is short enough for a step.
pub fn truncate_step_label(label: String) -> (result: String)
    ensures
        result@ == shortened(label@, VOICE_STEP_LABEL_MAX as nat),
{
    shorten(label.as_str(), VOICE_STEP_LABEL_MAX)
}

/// No text that is shortened is longer than its limit, as long as the dots fit.
pub proof fn lemma_shortened_fits(s: Seq<char>, limit: nat)
    requires
        limit >= 3,
    ensures
        shortened(s, limit).len() <= limit,
{
    reveal_strlit("...");
}

/// Where a command goes and how it is shown is not told: neither the settings with
/// their values nor the modes. Every other argument is.
pub proof fn lemma_settings_are_not_told(arg: Seq<char>, value: Seq<char>, rest: Seq<Seq<char>>)
    ensures
        telling_args(seq!["--server-addr"@, value] + rest) == telling_args(rest),
        telling_args(seq!["--profile"@, value] + rest) == telling_args(rest),
        telling_args(seq!["--mode"@, value] + rest) == telling_args(rest),
        telling_args(seq!["headless"@] + rest) == telling_args(rest),
        telling_args(seq!["headful"@] + rest) == telling_args(rest),
        arg != "--server-addr"@ && arg != "--profile"@ && arg != "--mode"@ && arg != "headless"@
            && arg != "headful"@ ==> telling_args(seq![arg] + rest) == seq![arg] + telling_args(
            rest,
        ),
{
    reveal_strlit("--server-addr");
    reveal_strlit("--profile");
    reveal_strlit("--mode");
    reveal_strlit("headless");
    reveal_strlit("headful");
    assert("--server-addr"@.len() == 13 && "--profile"@.len() == 9 && "--mode"@.len() == 6 && "headless"@.len() == 8 && "headful"@.len() == 7);
    assert((seq!["--server-addr"@, value] + rest).skip(2) =~= rest);
    assert((seq!["--profile"@, value] + rest).skip(2) =~= rest);
    assert((seq!["--mode"@, value] + rest).skip(2) =~= rest);
    assert((seq!["headless"@] + rest).skip(1) =~= rest);
    assert((seq!["headful"@] + rest).skip(1) =~= rest);
    assert((seq![arg] + rest).skip(1) =~= rest);
    assert((seq![arg] + rest)[0] == arg);
    assert((seq!["--server-addr"@, value] + rest)[0] == "--server-addr"@);
    assert((seq!["--profile"@, value] + rest)[0] == "--profile"@);
    assert((seq!["--mode"@, value] + rest)[0] == "--mode"@);
    assert((seq!["headless"@] + rest)[0] == "headless"@);
    assert((seq!["headful"@] + rest)[0] == "headful"@);
}

/// An action is told by what it opens, runs or controls.
pub proof fn lemma_action_is_told(action: JsonView, s: Seq<char>)
    ensures
        text_field(action, "kind"@) == Some("open_app"@) && text_field(action, "app_name"@)
            == Some(s) ==> progress_label(action) == Some("opening "@ + s),
        text_field(action, "kind"@) == Some("shell_exec"@) && text_field(action, "command"@)
            == Some(s) ==> progress_label(action) == Some(
            "running shell `"@ + shortened(squeezed(s), 80) + "`"@,
        ),
        text_field(action, "kind"@) == Some("ctx"@) ==> progress_label(action) == Some(
            "using ctx memory"@,
        ),
        text_field(action, "kind"@) == Some("mouse_click"@) || text_field(action, "kind"@) == Some(
            "mouse_move"@,
        ) || text_field(action, "kind"@) == Some("mouse_drag"@) || text_field(action, "kind"@)
            == Some("key_press"@) || text_field(action, "kind"@) == Some("key_type"@) || text_field(
            action,
            "kind"@,
        ) == Some("key_paste"@) || text_field(action, "kind"@) == Some("clipboard_read"@)
            || text_field(action, "kind"@) == Some("clipboard_write"@) ==> progress_label(action)
            == Some("controlling the computer"@),
        text_field(action, "kind"@) is None ==> progress_label(action) is None,
{
    reveal_strlit("aegis");
    reveal_strlit("shell_exec");
    reveal_strlit("open_app");
    reveal_strlit("sequence");
    reveal_strlit("ctx");
    reveal_strlit("mouse_click");
    reveal_strlit("mouse_move");
    reveal_strlit("mouse_drag");
    reveal_strlit("key_press");
    reveal_strlit("key_type");
    reveal_strlit("key_paste");
    reveal_strlit("clipboard_read");
    reveal_strlit("clipboard_write");
    assert("shell_exec"@[0] != "mouse_move"@[0]);
    assert("shell_exec"@[0] != "mouse_drag"@[0]);
    assert("open_app"@[0] != "sequence"@[0]);
    assert("open_app"@[0] != "key_type"@[0]);
    assert("sequence"@[0] != "key_type"@[0]);
    assert("mouse_move"@[6] != "mouse_drag"@[6]);
    assert("key_press"@[5] != "key_paste"@[5]);
    assert("aegis"@.len() == 5 && "shell_exec"@.len() == 10 && "open_app"@.len() == 8 && "sequence"@.len() == 8 && "ctx"@.len() == 3 && "mouse_click"@.len() == 11 && "mouse_move"@.len() == 10 && "mouse_drag"@.len() == 10 && "key_press"@.len() == 9 && "key_type"@.len() == 8 && "key_paste"@.len() == 9 && "clipboard_read"@.len() == 14 && "clipboard_write"@.len() == 15);
}

/// An Aegis command is told by its arguments that tell something.
pub proof fn lemma_aegis_command_is_told(action: JsonView, args: Seq<JsonView>)
    requires
        text_field(action, "kind"@) == Some("aegis"@),
        array_field(action, "args"@) == Some(args),
    ensures
        telling_args(text_items(args)).len() == 0 ==> progress_label(action) == Some(
            "using Aegis"@,
        ),
        telling_args(text_items(args)).len() > 0 ==> progress_label(action) == Some(
            "using Aegis `"@ + shortened(
                squeezed(joined(telling_args(text_items(args)), " "@)),
                90,
            ) + "`"@,
        ),
{
}

/// A sequence is told by the number of its actions and by the last of them that
/// tells something.
pub proof fn lemma_sequence_is_told_by_its_end(action: JsonView, items: Seq<JsonView>, k: int)
    requires
        text_field(action, "kind"@) == Some("sequence"@),
        array_field(action, "actions"@) == Some(items),
        -1 <= k,
        forall|i: int| k < i < items.len() ==> progress_label(#[trigger] items[i]) is None,
    ensures
        0 <= k < items.len() && progress_label(items[k]) is Some ==> progress_label(action) == Some(
            "running a "@ + decimal(items.len()) + "-action sequence"@ + " ending with "@
                + progress_label(items[k])->0,
        ),
        k == -1 ==> progress_label(action) == Some(
            "running a "@ + decimal(items.len()) + "-action sequence"@,
        ),
{
    reveal_strlit("aegis");
    reveal_strlit("shell_exec");
    reveal_strlit("open_app");
    reveal_strlit("sequence");
    reveal_strlit("ctx");
    reveal_strlit("mouse_click");
    reveal_strlit("mouse_move");
    reveal_strlit("mouse_drag");
    reveal_strlit("key_press");
    reveal_strlit("key_type");
    reveal_strlit("key_paste");
    reveal_strlit("clipboard_read");
    reveal_strlit("clipboard_write");
    assert("shell_exec"@[0] != "mouse_move"@[0]);
    assert("shell_exec"@[0] != "mouse_drag"@[0]);
    assert("open_app"@[0] != "sequence"@[0]);
    assert("open_app"@[0] != "key_type"@[0]);
    assert("sequence"@[0] != "key_type"@[0]);
    assert("mouse_move"@[6] != "mouse_drag"@[6]);
    assert("key_press"@[5] != "key_paste"@[5]);
    assert("aegis"@.len() == 5 && "shell_exec"@.len() == 10 && "open_app"@.len() == 8 && "sequence"@.len() == 8 && "ctx"@.len() == 3 && "mouse_click"@.len() == 11 && "mouse_move"@.len() == 10 && "mouse_drag"@.len() == 10 && "key_press"@.len() == 9 && "key_type"@.len() == 8 && "key_paste"@.len() == 9 && "clipboard_read"@.len() == 14 && "clipboard_write"@.len() == 15);
    lemma_last_label(items, k);
}

proof fn lemma_last_label(items: Seq<JsonView>, k: int)
    requires
        -1 <= k,
        forall|i: int| k < i < items.len() ==> progress_label(#[trigger] items[i]) is None,
    ensures
        0 <= k < items.len() && progress_label(items[k]) is Some ==> last_label(items)
            == progress_label(items[k]),
        k == -1 ==> last_label(items) is None,
    decreases items.len(),
{
    if items.len() > 0 {
        let rest = items.subrange(0, items.len() - 1);
        assert(forall|i: int| 0 <= i < rest.len() ==> #[trigger] rest[i] == items[i]);
        lemma_last_label(rest, k);
        if 0 <= k < items.len() - 1 {
            assert(rest[k] == items[k]);
        }
    }
}

/// The progress that is told is that of the last attempt that tells something,
/// with the number of all attempts; where none does, none is told.
pub proof fn lemma_last_progress_is_told(attempts: Seq<AttemptView>, k: int, action: JsonView)
    requires
        -1 <= k,
        forall|i: int|
            k < i < attempts.len() ==> ((#[trigger] attempts[i]).action matches Some(later)
                ==> progress_label(later) is None),
    ensures
        0 <= k < attempts.len() && attempts[k].action == Some(action) && progress_label(
            action,
        ) is Some ==> progress_summary(attempts) == Some(
            decimal(attempts.len()) + (if attempts.len() == 1 {
                " completed attempt; last progress was "@
            } else {
                " completed attempts; last progress was "@
            }) + progress_label(action)->0,
        ),
        k == -1 ==> progress_summary(attempts) is None,
{
    lemma_last_attempt_label(attempts, k, action);
    reveal_strlit(" completed attempt");
    reveal_strlit("");
    reveal_strlit("s");
    reveal_strlit("; last progress was ");
    reveal_strlit(" completed attempt; last progress was ");
    reveal_strlit(" completed attempts; last progress was ");
    assert(" completed attempt"@ + ""@ + "; last progress was "@
        =~= " completed attempt; last progress was "@);
    assert(" completed attempt"@ + "s"@ + "; last progress was "@
        =~= " completed attempts; last progress was "@);
    if 0 <= k < attempts.len() && attempts[k].action == Some(action) && progress_label(
        action,
    ) is Some {
        let label = progress_label(action)->0;
        let n = decimal(attempts.len());
        assert(n + " completed attempt"@ + ""@ + "; last progress was "@ + label =~= n + (
        " completed attempt"@ + ""@ + "; last progress was "@) + label);
        assert(n + " completed attempt"@ + "s"@ + "; last progress was "@ + label =~= n + (
        " completed attempt"@ + "s"@ + "; last progress was "@) + label);
    }
}

proof fn lemma_last_attempt_label(attempts: Seq<AttemptView>, k: int, action: JsonView)
    requires
        -1 <= k,
        forall|i: int|
            k < i < attempts.len() ==> ((#[trigger] attempts[i]).action matches Some(later)
                ==> progress_label(later) is None),
    ensures
        0 <= k < attempts.len() && attempts[k].action == Some(action) && progress_label(
            action,
        ) is Some ==> last_attempt_label(attempts) == progress_label(action),
        k == -1 ==> last_attempt_label(attempts) is None,
    decreases attempts.len(),
{
    if attempts.len() > 0 {
        let rest = attempts.drop_last();
        assert(forall|i: int| 0 <= i < rest.len() ==> #[trigger] rest[i] == attempts[i]);
        assert(attempts.last() == attempts[attempts.len() - 1]);
        lemma_last_attempt_label(rest, k, action);
        if 0 <= k < attempts.len() - 1 {
            assert(rest[k] == attempts[k]);
        }
    }
}

/// Why the provider stopped is told in its own words: no credits before a prompt
/// that is too long, and that before a payment that is due.
pub proof fn lemma_stop_has_its_reason(message: Seq<char>)
    ensures
        has_text(lower(message), "insufficient credits"@) ==> account_reason(message)
            == "insufficient provider credits"@,
        has_text(lower(message), "prompt tokens limit exceeded"@) && !has_text(
            lower(message),
            "insufficient credits"@,
        ) ==> account_reason(message) == "the provider prompt-token limit was exceeded"@,
        has_text(lower(message), "402 payment required"@) && !has_text(
            lower(message),
            "insufficient credits"@,
        ) && !has_text(lower(message), "prompt tokens limit exceeded"@) ==> account_reason(message)
            == "the provider returned payment required"@,
        !has_text(lower(message), "insufficient credits"@) && !has_text(
            lower(message),
            "prompt tokens limit exceeded"@,
        ) && !has_text(lower(message), "402 payment required"@) ==> account_reason(message)
            == "the provider account could not accept the request"@,
{
}

/// What stops a task tells how far the task had come, if it had come anywhere.
pub proof fn lemma_stop_tells_the_progress(
    message: Seq<char>,
    required: Seq<char>,
    model: Seq<char>,
    attempts: Seq<AttemptView>,
)
    ensures
        progress_summary(attempts) matches Some(progress) ==> has_text(
            account_failure_reply(message, attempts),
            progress,
        ) && has_text(missing_key_reply(required, model, attempts), progress),
        has_text(account_failure_reply(message, attempts), account_reason(message)),
        starts_with(missing_key_reply(required, model, attempts), required),
        has_text(missing_key_reply(required, model, attempts), model),
{
    let reason = account_reason(message);
    let head = required + " is required for planner model "@;
    match progress_summary(attempts) {
        Some(progress) => {
            let start = "Planner provider stopped the task after "@;
            let reply = account_failure_reply(message, attempts);
            let a = start.len() as int;
            assert(reply.subrange(a, a + progress.len()) =~= progress);
            assert(occurs_at(reply, progress, a));
            let b = a + progress.len() + ": "@.len();
            assert(reply.subrange(b, b + reason.len()) =~= reason);
            assert(occurs_at(reply, reason, b));
            let missing = missing_key_reply(required, model, attempts);
            let c = (head.len() + model.len() + "; stopped after "@.len()) as int;
            assert(missing.subrange(c, c + progress.len()) =~= progress);
            assert(occurs_at(missing, progress, c));
            let d = head.len() as int;
            assert(missing.subrange(d, d + model.len()) =~= model);
            assert(occurs_at(missing, model, d));
            assert(missing.subrange(0, required.len() as int) =~= required);
        },
        None => {
            let start = "Planner provider stopped the task: "@;
            let reply = account_failure_reply(message, attempts);
            let b = start.len() as int;
            assert(reply.subrange(b, b + reason.len()) =~= reason);
            assert(occurs_at(reply, reason, b));
            let missing = missing_key_reply(required, model, attempts);
            let d = head.len() as int;
            assert(missing.subrange(d, d + model.len()) =~= model);
            assert(occurs_at(missing, model, d));
            assert(missing.subrange(0, required.len() as int) =~= required);
        },
    }
}

/// The label of a step begins with its kind and has the words of the value behind
/// it, as far as they fit.
pub proof fn lemma_label_has_kind_and_words(kind: Seq<char>, value: Seq<char>)
    ensures
        squeezed(value).len() == 0 && kind.len() <= 96 ==> step_label(kind, value) == kind,
        squeezed(value).len() > 0 && kind.len() + 2 + squeezed(value).len() <= 96 ==> step_label(
            kind,
            value,
        ) == kind + ": "@ + squeezed(value),
        step_label(kind, value).len() <= 96,
{
    reveal_strlit(": ");
    lemma_long_text_is_cut(kind, 96, 0);
    lemma_long_text_is_cut(kind + ": "@ + squeezed(value), 96, 0);
}

} // verus!
