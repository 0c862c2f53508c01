//! The actions that a plan can ask the desktop daemon for.

use vstd::prelude::*;

use crate::json::{
    array_field, empty_object, nat_view, number_field, opt_text_view, text_field, text_view,
    texts_view, with_field, Json, JsonView,
};
use crate::spacing::lemma_phrase_stands;
use crate::text::{has_text, lower, opt_text, same_ignoring_case, texts};

verus! {

/// One action, or a sequence of actions. What a mouse action or a clipboard
/// read asks for in detail is carried as the fields of its JSON object.
#[derive(Debug)]
pub enum InputAction {
    MouseMove { fields: Json },
    MouseClick { fields: Json },
    MouseDrag { fields: Json },
    KeyPress { combo: String },
    KeyType { text: String },
    KeyPaste { text: String },
    ClipboardRead { fields: Json },
    ClipboardWrite { text: String },
    OpenApp { app_name: String },
    ShellExec { command: String, timeout_ms: u64 },
    Aegis { args: Vec<String>, timeout_ms: u64 },
    Ctx { args: Vec<String>, workspace_root: Option<String>, timeout_ms: u64 },
    Pause,
    Resume,
    KillSwitch,
    Sequence { actions: Vec<InputAction>, inter_action_delay_ms: u64 },
}

/// What an action means.
pub enum ActionView {
    MouseMove { fields: JsonView },
    MouseClick { fields: JsonView },
    MouseDrag { fields: JsonView },
    KeyPress { combo: Seq<char> },
    KeyType { text: Seq<char> },
    KeyPaste { text: Seq<char> },
    ClipboardRead { fields: JsonView },
    ClipboardWrite { text: Seq<char> },
    OpenApp { app_name: Seq<char> },
    ShellExec { command: Seq<char>, timeout_ms: u64 },
    Aegis { args: Seq<Seq<char>>, timeout_ms: u64 },
    Ctx { args: Seq<Seq<char>>, workspace_root: Option<Seq<char>>, timeout_ms: u64 },
    Pause,
    Resume,
    KillSwitch,
    Sequence { actions: Seq<ActionView>, inter_action_delay_ms: u64 },
}

pub open spec fn action_view(action: InputAction) -> ActionView
    decreases action,
{
    match action {
        InputAction::MouseMove { fields } => ActionView::MouseMove { fields: fields@ },
        InputAction::MouseClick { fields } => ActionView::MouseClick { fields: fields@ },
        InputAction::MouseDrag { fields } => ActionView::MouseDrag { fields: fields@ },
        InputAction::KeyPress { combo } => ActionView::KeyPress { combo: combo@ },
        InputAction::KeyType { text } => ActionView::KeyType { text: text@ },
        InputAction::KeyPaste { text } => ActionView::KeyPaste { text: text@ },
        InputAction::ClipboardRead { fields } => ActionView::ClipboardRead { fields: fields@ },
        InputAction::ClipboardWrite { text } => ActionView::ClipboardWrite { text: text@ },
        InputAction::OpenApp { app_name } => ActionView::OpenApp { app_name: app_name@ },
        InputAction::ShellExec { command, timeout_ms } => ActionView::ShellExec {
            command: command@,
            timeout_ms,
        },
        InputAction::Aegis { args, timeout_ms } => ActionView::Aegis {
            args: texts(args@),
            timeout_ms,
        },
        InputAction::Ctx { args, workspace_root, timeout_ms } => ActionView::Ctx {
            args: texts(args@),
            workspace_root: opt_text(workspace_root),
            timeout_ms,
        },
        InputAction::Pause => ActionView::Pause,
        InputAction::Resume => ActionView::Resume,
        InputAction::KillSwitch => ActionView::KillSwitch,
        InputAction::Sequence { actions, inter_action_delay_ms } => ActionView::Sequence {
            actions: Seq::new(
                actions@.len(),
                |i: int|
                    if 0 <= i < actions@.len() {
                        action_view(actions@[i])
                    } else {
                        arbitrary()
                    },
            ),
            inter_action_delay_ms,
        },
    }
}

impl View for InputAction {
    type V = ActionView;

    open spec fn view(&self) -> ActionView {
        action_view(*self)
    }
}

/// The meanings of a list of actions.
pub open spec fn action_views(actions: Seq<InputAction>) -> Seq<ActionView> {
    Seq::new(actions.len(), |i: int| actions[i]@)
}

pub open spec fn opt_action(action: Option<InputAction>) -> Option<ActionView> {
    match action {
        Some(action) => Some(action@),
        None => None,
    }
}

pub proof fn lemma_sequence_view(actions: Vec<InputAction>, inter_action_delay_ms: u64)
    ensures
        action_view(InputAction::Sequence { actions, inter_action_delay_ms }) == (
        ActionView::Sequence { actions: action_views(actions@), inter_action_delay_ms }),
{
    let whole = action_view(InputAction::Sequence { actions, inter_action_delay_ms });
    assert(whole->actions =~= action_views(actions@));
}

fn copy_texts(items: &Vec<String>) -> (copy: Vec<String>)
    ensures
        texts(copy@) == texts(items@),
{
    let mut copy: Vec<String> = Vec::new();
    let mut i: usize = 0;
    while i < items.len()
        invariant
            i <= items@.len(),
            copy@.len() == i,
            forall|j: int| 0 <= j < i ==> (#[trigger] copy@[j])@ == items@[j]@,
        decreases items@.len() - i,
    {
        copy.push(items[i].clone());
        i = i + 1;
    }
    assert(texts(copy@) =~= texts(items@));
    copy
}

fn copy_opt_text(s: &Option<String>) -> (copy: Option<String>)
    ensures
        opt_text(copy) == opt_text(*s),
{
    match s {
        Some(s) => Some(s.clone()),
        None => None,
    }
}

impl Clone for InputAction {
    fn clone(&self) -> (copy: InputAction)
        ensures
            copy@ == self@,
        decreases self,
    {
        match self {
            InputAction::MouseMove { fields } => InputAction::MouseMove { fields: fields.clone() },
            InputAction::MouseClick { fields } => InputAction::MouseClick {
                fields: fields.clone(),
            },
            InputAction::MouseDrag { fields } => InputAction::MouseDrag { fields: fields.clone() },
            InputAction::KeyPress { combo } => InputAction::KeyPress { combo: combo.clone() },
            InputAction::KeyType { text } => InputAction::KeyType { text: text.clone() },
            InputAction::KeyPaste { text } => InputAction::KeyPaste { text: text.clone() },
            InputAction::ClipboardRead { fields } => InputAction::ClipboardRead {
                fields: fields.clone(),
            },
            InputAction::ClipboardWrite { text } => InputAction::ClipboardWrite {
                text: text.clone(),
            },
            InputAction::OpenApp { app_name } => InputAction::OpenApp {
                app_name: app_name.clone(),
            },
            InputAction::ShellExec { command, timeout_ms } => InputAction::ShellExec {
                command: command.clone(),
                timeout_ms: *timeout_ms,
            },
            InputAction::Aegis { args, timeout_ms } => InputAction::Aegis {
                args: copy_texts(args),
                timeout_ms: *timeout_ms,
            },
            InputAction::Ctx { args, workspace_root, timeout_ms } => InputAction::Ctx {
                args: copy_texts(args),
                workspace_root: copy_opt_text(workspace_root),
                timeout_ms: *timeout_ms,
            },
            InputAction::Pause => InputAction::Pause,
            InputAction::Resume => InputAction::Resume,
            InputAction::KillSwitch => InputAction::KillSwitch,
            InputAction::Sequence { actions, inter_action_delay_ms } => {
                let mut list: Vec<InputAction> = Vec::new();
                let mut i: usize = 0;
                while i < actions.len()
                    invariant
                        i <= actions@.len(),
                        *self == (InputAction::Sequence {
                            actions: *actions,
                            inter_action_delay_ms: *inter_action_delay_ms,
                        }),
                        list@.len() == i,
                        forall|j: int| 0 <= j < i ==> (#[trigger] list@[j])@ == actions@[j]@,
                    decreases actions@.len() - i,
                {
                    assert(decreases_to!(self => self->actions));
                    assert(decreases_to!(actions => actions[i as int]));
                    list.push(actions[i].clone());
                    i = i + 1;
                }
                proof {
                    lemma_sequence_view(*actions, *inter_action_delay_ms);
                    lemma_sequence_view(list, *inter_action_delay_ms);
                    assert(action_views(list@) =~= action_views(actions@));
                }
                InputAction::Sequence { actions: list, inter_action_delay_ms: *inter_action_delay_ms }
            },
        }
    }
}

/// The object of an action's own fields, or an empty one.
pub open spec fn object_or_empty(fields: JsonView) -> JsonView {
    match fields {
        JsonView::Object(_) => fields,
        _ => empty_object(),
    }
}

/// An object of the kind `kind`.
pub open spec fn of_kind(kind: Seq<char>) -> JsonView {
    with_field(empty_object(), "kind"@, text_view(kind))
}

/// The JSON object of an action: its kind, then its fields under their names.
pub open spec fn action_json(action: ActionView) -> JsonView
    decreases action,
{
    match action {
        ActionView::MouseMove { fields } => with_field(
            object_or_empty(fields),
            "kind"@,
            text_view("mouse_move"@),
        ),
        ActionView::MouseClick { fields } => with_field(
            object_or_empty(fields),
            "kind"@,
            text_view("mouse_click"@),
        ),
        ActionView::MouseDrag { fields } => with_field(
            object_or_empty(fields),
            "kind"@,
            text_view("mouse_drag"@),
        ),
        ActionView::KeyPress { combo } => with_field(
            of_kind("key_press"@),
            "combo"@,
            text_view(combo),
        ),
        ActionView::KeyType { text } => with_field(of_kind("key_type"@), "text"@, text_view(text)),
        ActionView::KeyPaste { text } => with_field(of_kind("key_paste"@), "text"@, text_view(text)),
        ActionView::ClipboardRead { fields } => with_field(
            object_or_empty(fields),
            "kind"@,
            text_view("clipboard_read"@),
        ),
        ActionView::ClipboardWrite { text } => with_field(
            of_kind("clipboard_write"@),
            "text"@,
            text_view(text),
        ),
        ActionView::OpenApp { app_name } => with_field(
            of_kind("open_app"@),
            "app_name"@,
            text_view(app_name),
        ),
        ActionView::ShellExec { command, timeout_ms } => with_field(
            with_field(of_kind("shell_exec"@), "command"@, text_view(command)),
            "timeout_ms"@,
            nat_view(timeout_ms),
        ),
        ActionView::Aegis { args, timeout_ms } => with_field(
            with_field(of_kind("aegis"@), "args"@, texts_view(args)),
            "timeout_ms"@,
            nat_view(timeout_ms),
        ),
        ActionView::Ctx { args, workspace_root, timeout_ms } => with_field(
            with_field(
                with_field(of_kind("ctx"@), "args"@, texts_view(args)),
                "workspace_root"@,
                opt_text_view(workspace_root),
            ),
            "timeout_ms"@,
            nat_view(timeout_ms),
        ),
        ActionView::Pause => of_kind("pause"@),
        ActionView::Resume => of_kind("resume"@),
        ActionView::KillSwitch => of_kind("kill_switch"@),
        ActionView::Sequence { actions, inter_action_delay_ms } => with_field(
            with_field(
                of_kind("sequence"@),
                "actions"@,
                JsonView::Array(
                    Seq::new(
                        actions.len(),
                        |i: int|
                            if 0 <= i < actions.len() {
                                action_json(actions[i])
                            } else {
                                arbitrary()
                            },
                    ),
                ),
            ),
            "inter_action_delay_ms"@,
            nat_view(inter_action_delay_ms),
        ),
    }
}

/// The JSON objects of a list of actions.
pub open spec fn action_jsons(actions: Seq<ActionView>) -> Seq<JsonView> {
    Seq::new(actions.len(), |i: int| action_json(actions[i]))
}

pub proof fn lemma_sequence_json(actions: Seq<ActionView>, inter_action_delay_ms: u64)
    ensures
        action_json(ActionView::Sequence { actions, inter_action_delay_ms }) == with_field(
            with_field(of_kind("sequence"@), "actions"@, JsonView::Array(action_jsons(actions))),
            "inter_action_delay_ms"@,
            nat_view(inter_action_delay_ms),
        ),
{
    reveal_strlit("actions");
    reveal_strlit("inter_action_delay_ms");
    let whole = action_json(ActionView::Sequence { actions, inter_action_delay_ms });
    assert("actions"@.len() != "inter_action_delay_ms"@.len());
    let listed = whole->Object_0["actions"@];
    assert(listed is Array);
    assert(listed->Array_0.len() == actions.len());
    assert(listed->Array_0 =~= action_jsons(actions));
}

fn kind_object(kind: &str) -> (value: Json)
    ensures
        value@ == of_kind(kind@),
{
    let mut value = Json::object();
    value.set("kind", Json::text(kind));
    value
}

fn with_kind(fields: &Json, kind: &str) -> (value: Json)
    ensures
        value@ == with_field(object_or_empty(fields@), "kind"@, text_view(kind@)),
{
    let mut value = match fields {
        Json::Object(_) => fields.clone(),
        _ => Json::object(),
    };
    value.set("kind", Json::text(kind));
    value
}

fn kind_and_text(kind: &str, key: &str, text: &str) -> (value: Json)
    ensures
        value@ == with_field(of_kind(kind@), key@, text_view(text@)),
{
    let mut value = kind_object(kind);
    value.set(key, Json::text(text));
    value
}

impl InputAction {
    /// The JSON object of an action.
    pub fn to_json(&self) -> (value: Json)
        ensures
            value@ == action_json(self@),
        decreases self,
    {
        match self {
            InputAction::MouseMove { fields } => with_kind(fields, "mouse_move"),
            InputAction::MouseClick { fields } => with_kind(fields, "mouse_click"),
            InputAction::MouseDrag { fields } => with_kind(fields, "mouse_drag"),
            InputAction::KeyPress { combo } => kind_and_text("key_press", "combo", combo.as_str()),
            InputAction::KeyType { text } => kind_and_text("key_type", "text", text.as_str()),
            InputAction::KeyPaste { text } => kind_and_text("key_paste", "text", text.as_str()),
            InputAction::ClipboardRead { fields } => with_kind(fields, "clipboard_read"),
            InputAction::ClipboardWrite { text } => kind_and_text(
                "clipboard_write",
                "text",
                text.as_str(),
            ),
            InputAction::OpenApp { app_name } => kind_and_text(
                "open_app",
                "app_name",
                app_name.as_str(),
            ),
            InputAction::ShellExec { command, timeout_ms } => {
                let mut value = kind_and_text("shell_exec", "command", command.as_str());
                value.set("timeout_ms", Json::number(*timeout_ms));
                value
            },
            InputAction::Aegis { args, timeout_ms } => {
                let mut value = kind_object("aegis");
                value.set("args", Json::text_list(args));
                value.set("timeout_ms", Json::number(*timeout_ms));
                value
            },
            InputAction::Ctx { args, workspace_root, timeout_ms } => {
                let mut value = kind_object("ctx");
                value.set("args", Json::text_list(args));
                value.set("workspace_root", Json::opt_text(workspace_root));
                value.set("timeout_ms", Json::number(*timeout_ms));
                value
            },
            InputAction::Pause => kind_object("pause"),
            InputAction::Resume => kind_object("resume"),
            InputAction::KillSwitch => kind_object("kill_switch"),
            InputAction::Sequence { actions, inter_action_delay_ms } => {
                let mut list: Vec<Json> = Vec::new();
                let mut i: usize = 0;
                while i < actions.len()
                    invariant
                        i <= actions@.len(),
                        *self == (InputAction::Sequence {
                            actions: *actions,
                            inter_action_delay_ms: *inter_action_delay_ms,
                        }),
                        list@.len() == i,
                        forall|j: int|
                            0 <= j < i ==> (#[trigger] list@[j])@ == action_json(actions@[j]@),
                    decreases actions@.len() - i,
                {
                    assert(decreases_to!(self => self->actions));
                    assert(decreases_to!(actions => actions[i as int]));
                    list.push(actions[i].to_json());
                    i = i + 1;
                }
                let items = Json::Array(list);
                proof {
                    lemma_sequence_view(*actions, *inter_action_delay_ms);
                    lemma_sequence_json(action_views(actions@), *inter_action_delay_ms);
                    assert(items@->Array_0 =~= action_jsons(action_views(actions@)));
                }
                let mut value = kind_object("sequence");
                value.set("actions", items);
                value.set("inter_action_delay_ms", Json::number(*inter_action_delay_ms));
                value
            },
        }
    }
}

/// The questions that are asked of the single actions of a plan.
#[derive(Clone, Copy, Debug, PartialEq, Eq, Structural)]
pub enum PartTest {
    /// It goes to the Aegis browser.
    Aegis,
    /// It opens an application.
    OpenApp,
    /// It puts text somewhere: keys, clipboard or shell.
    EntersText,
    /// It presses the key combination for a new document.
    NewDocument,
    /// It is a shell command that can fail observably, or repair something.
    FailureOrRecovery,
}

/// The command probes for something that may not be there.
pub open spec fn probes(command: Seq<char>) -> bool {
    let c = lower(command);
    ||| has_text(c, "cat "@)
    ||| has_text(c, "test "@)
    ||| has_text(c, "[ -"@)
    ||| has_text(c, "stat "@)
    ||| has_text(c, "ls "@)
}

/// The command puts something in place.
pub open spec fn repairs(command: Seq<char>) -> bool {
    let c = lower(command);
    ||| has_text(c, "recover"@)
    ||| has_text(c, "mkdir "@)
    ||| has_text(c, "printf "@)
    ||| has_text(c, "echo "@)
    ||| has_text(c, "touch "@)
    ||| has_text(c, " >"@)
    ||| has_text(c, ">>"@)
}

/// The command has several parts, and goes on after the first.
pub open spec fn continues(command: Seq<char>) -> bool {
    ||| has_text(command, "||"@)
    ||| has_text(command, "&&"@)
    ||| has_text(command, ";"@)
    ||| has_text(command, "\n"@)
}

pub open spec fn part_passes(action: ActionView, test: PartTest) -> bool {
    match test {
        PartTest::Aegis => action is Aegis,
        PartTest::OpenApp => action is OpenApp,
        PartTest::EntersText => action is KeyType || action is KeyPaste || action is ClipboardWrite
            || action is ShellExec,
        PartTest::NewDocument => action matches ActionView::KeyPress { combo } && lower(combo)
            == lower("cmd+n"@),
        PartTest::FailureOrRecovery => action matches ActionView::ShellExec { command, .. } && (
        probes(command) || repairs(command)),
    }
}

/// One of the single actions passes the test.
pub open spec fn any_part(action: ActionView, test: PartTest) -> bool
    decreases action,
{
    match action {
        ActionView::Sequence { actions, .. } => exists|i: int|
            0 <= i < actions.len() && any_part(#[trigger] actions[i], test),
        _ => part_passes(action, test),
    }
}

/// Every single action passes the test, and no sequence is empty.
pub open spec fn every_part(action: ActionView, test: PartTest) -> bool
    decreases action,
{
    match action {
        ActionView::Sequence { actions, .. } => actions.len() > 0 && forall|i: int|
            0 <= i < actions.len() ==> every_part(#[trigger] actions[i], test),
        _ => part_passes(action, test),
    }
}

/// Whether a shell command probes for something that may not be there.
pub fn shell_command_attempts_failure_boundary_work(command: &str) -> (found: bool)
    ensures
        found == probes(command@),
{
    let c = crate::text::to_lower(command);
    let c = c.as_str();
    crate::text::contains(c, "cat ") || crate::text::contains(c, "test ") || crate::text::contains(
        c,
        "[ -",
    ) || crate::text::contains(c, "stat ") || crate::text::contains(c, "ls ")
}

/// Whether a shell command puts something in place.
pub fn shell_command_attempts_recovery_boundary_work(command: &str) -> (found: bool)
    ensures
        found == repairs(command@),
{
    let c = crate::text::to_lower(command);
    let c = c.as_str();
    crate::text::contains(c, "recover") || crate::text::contains(c, "mkdir ")
        || crate::text::contains(c, "printf ") || crate::text::contains(c, "echo ")
        || crate::text::contains(c, "touch ") || crate::text::contains(c, " >")
        || crate::text::contains(c, ">>")
}

/// Whether a shell command goes on after its first part.
pub fn shell_command_continues_after_failure(command: &str) -> (found: bool)
    ensures
        found == continues(command@),
{
    crate::text::contains(command, "||") || crate::text::contains(command, "&&")
        || crate::text::contains(command, ";") || crate::text::contains(command, "\n")
}

/// Whether a shell command hides its failure behind its own repair.
pub fn shell_command_collapses_failure_recovery_boundary(command: &str) -> (found: bool)
    ensures
        found == (probes(command@) && repairs(command@) && continues(command@)),
{
    shell_command_attempts_failure_boundary_work(command)
        && shell_command_attempts_recovery_boundary_work(command)
        && shell_command_continues_after_failure(command)
}

fn passes(action: &InputAction, test: PartTest) -> (found: bool)
    ensures
        found == part_passes(action@, test),
{
    match test {
        PartTest::Aegis => matches!(action, InputAction::Aegis { .. }),
        PartTest::OpenApp => matches!(action, InputAction::OpenApp { .. }),
        PartTest::EntersText => matches!(
            action,
            InputAction::KeyType { .. } | InputAction::KeyPaste { .. }
            | InputAction::ClipboardWrite { .. } | InputAction::ShellExec { .. }
        ),
        PartTest::NewDocument => match action {
            InputAction::KeyPress { combo } => same_ignoring_case(combo.as_str(), "cmd+n"),
            _ => false,
        },
        PartTest::FailureOrRecovery => match action {
            InputAction::ShellExec { command, .. } => {
                shell_command_attempts_failure_boundary_work(command.as_str())
                    || shell_command_attempts_recovery_boundary_work(command.as_str())
            },
            _ => false,
        },
    }
}

proof fn lemma_any_part(actions: Seq<ActionView>, delay: u64, i: int, test: PartTest)
    requires
        0 <= i < actions.len(),
        any_part(actions[i], test),
    ensures
        any_part(ActionView::Sequence { actions, inter_action_delay_ms: delay }, test),
{
    let whole = ActionView::Sequence { actions, inter_action_delay_ms: delay };
    assert(whole->actions == actions);
}

proof fn lemma_every_part(actions: Seq<ActionView>, delay: u64, i: int, test: PartTest)
    requires
        0 <= i < actions.len(),
        !every_part(actions[i], test),
    ensures
        !every_part(ActionView::Sequence { actions, inter_action_delay_ms: delay }, test),
{
    let whole = ActionView::Sequence { actions, inter_action_delay_ms: delay };
    assert(whole->actions == actions);
}

/// Whether one of the single actions passes the test.
pub fn has_part(action: &InputAction, test: PartTest) -> (found: bool)
    ensures
        found == any_part(action@, test),
    decreases action,
{
    match action {
        InputAction::Sequence { actions, inter_action_delay_ms } => {
            proof {
                lemma_sequence_view(*actions, *inter_action_delay_ms);
            }
            let ghost steps = action_views(actions@);
            let mut i: usize = 0;
            while i < actions.len()
                invariant
                    i <= actions@.len(),
                    steps == action_views(actions@),
                    action@ == (ActionView::Sequence {
                        actions: steps,
                        inter_action_delay_ms: *inter_action_delay_ms,
                    }),
                    *action == (InputAction::Sequence {
                        actions: *actions,
                        inter_action_delay_ms: *inter_action_delay_ms,
                    }),
                    forall|j: int| 0 <= j < i ==> !any_part(#[trigger] steps[j], test),
                decreases actions@.len() - i,
            {
                assert(decreases_to!(action => action->actions));
                assert(decreases_to!(actions => actions[i as int]));
                if has_part(&actions[i], test) {
                    proof {
                        lemma_any_part(steps, *inter_action_delay_ms, i as int, test);
                    }
                    return true;
                }
                i = i + 1;
            }
            false
        },
        _ => passes(action, test),
    }
}

/// Whether every single action passes the test, with no empty sequence.
pub fn has_only_parts(action: &InputAction, test: PartTest) -> (found: bool)
    ensures
        found == every_part(action@, test),
    decreases action,
{
    match action {
        InputAction::Sequence { actions, inter_action_delay_ms } => {
            proof {
                lemma_sequence_view(*actions, *inter_action_delay_ms);
            }
            let ghost steps = action_views(actions@);
            let mut i: usize = 0;
            while i < actions.len()
                invariant
                    i <= actions@.len(),
                    steps == action_views(actions@),
                    action@ == (ActionView::Sequence {
                        actions: steps,
                        inter_action_delay_ms: *inter_action_delay_ms,
                    }),
                    *action == (InputAction::Sequence {
                        actions: *actions,
                        inter_action_delay_ms: *inter_action_delay_ms,
                    }),
                    forall|j: int| 0 <= j < i ==> every_part(#[trigger] steps[j], test),
                decreases actions@.len() - i,
            {
                assert(decreases_to!(action => action->actions));
                assert(decreases_to!(actions => actions[i as int]));
                if !has_only_parts(&actions[i], test) {
                    proof {
                        lemma_every_part(steps, *inter_action_delay_ms, i as int, test);
                    }
                    return false;
                }
                i = i + 1;
            }
            actions.len() > 0
        },
        _ => passes(action, test),
    }
}

/// The single action is one of those that the whole is made of.
pub open spec fn within(part: ActionView, whole: ActionView) -> bool
    decreases whole,
{
    match whole {
        ActionView::Sequence { actions, .. } => exists|i: int|
            0 <= i < actions.len() && within(part, #[trigger] actions[i]),
        _ => part == whole,
    }
}

/// A single action that enters text, opens an application, presses a combination
/// or goes to Aegis is found however deep it stands in a plan.
pub proof fn lemma_part_is_found(part: ActionView, whole: ActionView)
    requires
        within(part, whole),
    ensures
        part is KeyType || part is KeyPaste || part is ClipboardWrite || part is ShellExec
            ==> any_part(whole, PartTest::EntersText),
        part is Aegis ==> any_part(whole, PartTest::Aegis),
        part is OpenApp ==> any_part(whole, PartTest::OpenApp),
        part matches ActionView::KeyPress { combo } && lower(combo) == "cmd+n"@ ==> any_part(
            whole,
            PartTest::NewDocument,
        ),
        !(part is Aegis) ==> !every_part(whole, PartTest::Aegis),
        !(part is OpenApp) ==> !every_part(whole, PartTest::OpenApp),
    decreases whole,
{
    reveal_strlit("cmd+n");
    assert(lower("cmd+n"@) =~= "cmd+n"@);
    if let ActionView::Sequence { actions, .. } = whole {
        let i = choose|i: int| 0 <= i < actions.len() && within(part, #[trigger] actions[i]);
        assert(decreases_to!(whole => actions[i]));
        lemma_part_is_found(part, actions[i]);
    }
}

/// What is found in a plan is one of its single actions.
pub proof fn lemma_found_part_is_there(whole: ActionView, test: PartTest) -> (part: ActionView)
    requires
        any_part(whole, test),
    ensures
        within(part, whole),
        match test {
            PartTest::Aegis => part is Aegis,
            PartTest::OpenApp => part is OpenApp,
            PartTest::EntersText => part is KeyType || part is KeyPaste || part is ClipboardWrite
                || part is ShellExec,
            PartTest::NewDocument => part matches ActionView::KeyPress { combo } && lower(combo)
                == "cmd+n"@,
            PartTest::FailureOrRecovery => part is ShellExec,
        },
    decreases whole,
{
    reveal_strlit("cmd+n");
    assert(lower("cmd+n"@) =~= "cmd+n"@);
    match whole {
        ActionView::Sequence { actions, .. } => {
            let i = choose|i: int| 0 <= i < actions.len() && any_part(#[trigger] actions[i], test);
            assert(decreases_to!(whole => actions[i]));
            lemma_found_part_is_there(actions[i], test)
        },
        _ => whole,
    }
}

/// A plan does nothing but what is asked of each of its single actions exactly
/// if none of its sequences is empty and each of them does that.
pub proof fn lemma_every_part_of_a_sequence(
    actions: Seq<ActionView>,
    next: ActionView,
    delay: u64,
    test: PartTest,
)
    ensures
        !every_part(
            ActionView::Sequence { actions: Seq::empty(), inter_action_delay_ms: delay },
            test,
        ),
        actions.len() > 0 ==> every_part(
            ActionView::Sequence { actions: actions.push(next), inter_action_delay_ms: delay },
            test,
        ) == (every_part(ActionView::Sequence { actions, inter_action_delay_ms: delay }, test)
            && every_part(next, test)),
        every_part(
            ActionView::Sequence { actions: seq![next], inter_action_delay_ms: delay },
            test,
        ) == every_part(next, test),
        any_part(
            ActionView::Sequence { actions: actions.push(next), inter_action_delay_ms: delay },
            test,
        ) == (any_part(ActionView::Sequence { actions, inter_action_delay_ms: delay }, test)
            || any_part(next, test)),
{
    let longer = actions.push(next);
    let whole = ActionView::Sequence { actions: longer, inter_action_delay_ms: delay };
    let shorter = ActionView::Sequence { actions, inter_action_delay_ms: delay };
    let one = ActionView::Sequence { actions: seq![next], inter_action_delay_ms: delay };
    assert(whole->Sequence_actions == longer);
    assert(shorter->Sequence_actions == actions);
    assert(one->Sequence_actions == seq![next]);
    assert(longer[actions.len() as int] == next);
    assert(forall|i: int| 0 <= i < actions.len() ==> #[trigger] longer[i] == actions[i]);
    assert(forall|i: int| 0 <= i < actions.len() ==> #[trigger] actions[i] == longer[i]);
    assert(seq![next][0] == next);
    if any_part(shorter, test) {
        let i = choose|i: int| 0 <= i < actions.len() && any_part(#[trigger] actions[i], test);
        assert(any_part(longer[i], test));
    }
    if any_part(next, test) {
        assert(any_part(longer[actions.len() as int], test));
    }
    if every_part(whole, test) && actions.len() > 0 {
        assert forall|i: int| 0 <= i < actions.len() implies every_part(
            #[trigger] actions[i],
            test,
        ) by {
            assert(every_part(longer[i], test));
        }
        assert(every_part(longer[actions.len() as int], test));
    }
}

/// The kinds of actions have different names.
pub(crate) proof fn lemma_kinds_differ()
    ensures
        "key_type"@ != "mouse_move"@ && "key_type"@ != "mouse_click"@ && "key_type"@ != "mouse_drag"@ && "key_type"@ != "key_press"@ && "key_type"@ != "key_paste"@ && "key_type"@ != "clipboard_read"@ && "key_type"@ != "clipboard_write"@ && "key_type"@ != "open_app"@ && "key_type"@ != "shell_exec"@ && "key_type"@ != "aegis"@ && "key_type"@ != "ctx"@ && "key_type"@ != "pause"@ && "key_type"@ != "resume"@ && "key_type"@ != "kill_switch"@ && "key_type"@ != "sequence"@,
        "key_paste"@ != "mouse_move"@ && "key_paste"@ != "mouse_click"@ && "key_paste"@ != "mouse_drag"@ && "key_paste"@ != "key_press"@ && "key_paste"@ != "key_type"@ && "key_paste"@ != "clipboard_read"@ && "key_paste"@ != "clipboard_write"@ && "key_paste"@ != "open_app"@ && "key_paste"@ != "shell_exec"@ && "key_paste"@ != "aegis"@ && "key_paste"@ != "ctx"@ && "key_paste"@ != "pause"@ && "key_paste"@ != "resume"@ && "key_paste"@ != "kill_switch"@ && "key_paste"@ != "sequence"@,
        "clipboard_write"@ != "mouse_move"@ && "clipboard_write"@ != "mouse_click"@ && "clipboard_write"@ != "mouse_drag"@ && "clipboard_write"@ != "key_press"@ && "clipboard_write"@ != "key_type"@ && "clipboard_write"@ != "key_paste"@ && "clipboard_write"@ != "clipboard_read"@ && "clipboard_write"@ != "open_app"@ && "clipboard_write"@ != "shell_exec"@ && "clipboard_write"@ != "aegis"@ && "clipboard_write"@ != "ctx"@ && "clipboard_write"@ != "pause"@ && "clipboard_write"@ != "resume"@ && "clipboard_write"@ != "kill_switch"@ && "clipboard_write"@ != "sequence"@,
        "open_app"@ != "mouse_move"@ && "open_app"@ != "mouse_click"@ && "open_app"@ != "mouse_drag"@ && "open_app"@ != "key_press"@ && "open_app"@ != "key_type"@ && "open_app"@ != "key_paste"@ && "open_app"@ != "clipboard_read"@ && "open_app"@ != "clipboard_write"@ && "open_app"@ != "shell_exec"@ && "open_app"@ != "aegis"@ && "open_app"@ != "ctx"@ && "open_app"@ != "pause"@ && "open_app"@ != "resume"@ && "open_app"@ != "kill_switch"@ && "open_app"@ != "sequence"@,
        "shell_exec"@ != "mouse_move"@ && "shell_exec"@ != "mouse_click"@ && "shell_exec"@ != "mouse_drag"@ && "shell_exec"@ != "key_press"@ && "shell_exec"@ != "key_type"@ && "shell_exec"@ != "key_paste"@ && "shell_exec"@ != "clipboard_read"@ && "shell_exec"@ != "clipboard_write"@ && "shell_exec"@ != "open_app"@ && "shell_exec"@ != "aegis"@ && "shell_exec"@ != "ctx"@ && "shell_exec"@ != "pause"@ && "shell_exec"@ != "resume"@ && "shell_exec"@ != "kill_switch"@ && "shell_exec"@ != "sequence"@,
        "aegis"@ != "mouse_move"@ && "aegis"@ != "mouse_click"@ && "aegis"@ != "mouse_drag"@ && "aegis"@ != "key_press"@ && "aegis"@ != "key_type"@ && "aegis"@ != "key_paste"@ && "aegis"@ != "clipboard_read"@ && "aegis"@ != "clipboard_write"@ && "aegis"@ != "open_app"@ && "aegis"@ != "shell_exec"@ && "aegis"@ != "ctx"@ && "aegis"@ != "pause"@ && "aegis"@ != "resume"@ && "aegis"@ != "kill_switch"@ && "aegis"@ != "sequence"@,
        "clipboard_read"@ != "mouse_move"@ && "clipboard_read"@ != "mouse_click"@ && "clipboard_read"@ != "mouse_drag"@ && "clipboard_read"@ != "key_press"@ && "clipboard_read"@ != "key_type"@ && "clipboard_read"@ != "key_paste"@ && "clipboard_read"@ != "clipboard_write"@ && "clipboard_read"@ != "open_app"@ && "clipboard_read"@ != "shell_exec"@ && "clipboard_read"@ != "aegis"@ && "clipboard_read"@ != "ctx"@ && "clipboard_read"@ != "pause"@ && "clipboard_read"@ != "resume"@ && "clipboard_read"@ != "kill_switch"@ && "clipboard_read"@ != "sequence"@,
        "ctx"@ != "mouse_move"@ && "ctx"@ != "mouse_click"@ && "ctx"@ != "mouse_drag"@ && "ctx"@ != "key_press"@ && "ctx"@ != "key_type"@ && "ctx"@ != "key_paste"@ && "ctx"@ != "clipboard_read"@ && "ctx"@ != "clipboard_write"@ && "ctx"@ != "open_app"@ && "ctx"@ != "shell_exec"@ && "ctx"@ != "aegis"@ && "ctx"@ != "pause"@ && "ctx"@ != "resume"@ && "ctx"@ != "kill_switch"@ && "ctx"@ != "sequence"@,
        "sequence"@ != "mouse_move"@ && "sequence"@ != "mouse_click"@ && "sequence"@ != "mouse_drag"@ && "sequence"@ != "key_press"@ && "sequence"@ != "key_type"@ && "sequence"@ != "key_paste"@ && "sequence"@ != "clipboard_read"@ && "sequence"@ != "clipboard_write"@ && "sequence"@ != "open_app"@ && "sequence"@ != "shell_exec"@ && "sequence"@ != "aegis"@ && "sequence"@ != "ctx"@ && "sequence"@ != "pause"@ && "sequence"@ != "resume"@ && "sequence"@ != "kill_switch"@,
{
    reveal_strlit("mouse_move");
    reveal_strlit("mouse_click");
    reveal_strlit("mouse_drag");
    reveal_strlit("key_press");
    reveal_strlit("key_type");
    reveal_strlit("key_paste");
    reveal_strlit("clipboard_read");
    reveal_strlit("clipboard_write");
    reveal_strlit("open_app");
    reveal_strlit("shell_exec");
    reveal_strlit("aegis");
    reveal_strlit("ctx");
    reveal_strlit("pause");
    reveal_strlit("resume");
    reveal_strlit("kill_switch");
    reveal_strlit("sequence");
    assert("key_type"@.len() != "mouse_move"@.len());
    assert("key_type"@.len() != "mouse_click"@.len());
    assert("key_type"@.len() != "mouse_drag"@.len());
    assert("key_type"@.len() != "key_press"@.len());
    assert("key_type"@.len() != "key_paste"@.len());
    assert("key_type"@.len() != "clipboard_read"@.len());
    assert("key_type"@.len() != "clipboard_write"@.len());
    assert("key_type"@[0] != "open_app"@[0]);
    assert("key_type"@.len() != "shell_exec"@.len());
    assert("key_type"@.len() != "aegis"@.len());
    assert("key_type"@.len() != "ctx"@.len());
    assert("key_type"@.len() != "pause"@.len());
    assert("key_type"@.len() != "resume"@.len());
    assert("key_type"@.len() != "kill_switch"@.len());
    assert("key_type"@[0] != "sequence"@[0]);
    assert("key_paste"@.len() != "mouse_move"@.len());
    assert("key_paste"@.len() != "mouse_click"@.len());
    assert("key_paste"@.len() != "mouse_drag"@.len());
    assert("key_paste"@[5] != "key_press"@[5]);
    assert("key_paste"@.len() != "key_type"@.len());
    assert("key_paste"@.len() != "clipboard_read"@.len());
    assert("key_paste"@.len() != "clipboard_write"@.len());
    assert("key_paste"@.len() != "open_app"@.len());
    assert("key_paste"@.len() != "shell_exec"@.len());
    assert("key_paste"@.len() != "aegis"@.len());
    assert("key_paste"@.len() != "ctx"@.len());
    assert("key_paste"@.len() != "pause"@.len());
    assert("key_paste"@.len() != "resume"@.len());
    assert("key_paste"@.len() != "kill_switch"@.len());
    assert("key_paste"@.len() != "sequence"@.len());
    assert("clipboard_write"@.len() != "mouse_move"@.len());
    assert("clipboard_write"@.len() != "mouse_click"@.len());
    assert("clipboard_write"@.len() != "mouse_drag"@.len());
    assert("clipboard_write"@.len() != "key_press"@.len());
    assert("clipboard_write"@.len() != "key_type"@.len());
    assert("clipboard_write"@.len() != "key_paste"@.len());
    assert("clipboard_write"@.len() != "clipboard_read"@.len());
    assert("clipboard_write"@.len() != "open_app"@.len());
    assert("clipboard_write"@.len() != "shell_exec"@.len());
    assert("clipboard_write"@.len() != "aegis"@.len());
    assert("clipboard_write"@.len() != "ctx"@.len());
    assert("clipboard_write"@.len() != "pause"@.len());
    assert("clipboard_write"@.len() != "resume"@.len());
    assert("clipboard_write"@.len() != "kill_switch"@.len());
    assert("clipboard_write"@.len() != "sequence"@.len());
    assert("open_app"@.len() != "mouse_move"@.len());
    assert("open_app"@.len() != "mouse_click"@.len());
    assert("open_app"@.len() != "mouse_drag"@.len());
    assert("open_app"@.len() != "key_press"@.len());
    assert("open_app"@[0] != "key_type"@[0]);
    assert("open_app"@.len() != "key_paste"@.len());
    assert("open_app"@.len() != "clipboard_read"@.len());
    assert("open_app"@.len() != "clipboard_write"@.len());
    assert("open_app"@.len() != "shell_exec"@.len());
    assert("open_app"@.len() != "aegis"@.len());
    assert("open_app"@.len() != "ctx"@.len());
    assert("open_app"@.len() != "pause"@.len());
    assert("open_app"@.len() != "resume"@.len());
    assert("open_app"@.len() != "kill_switch"@.len());
    assert("open_app"@[0] != "sequence"@[0]);
    assert("shell_exec"@[0] != "mouse_move"@[0]);
    assert("shell_exec"@.len() != "mouse_click"@.len());
    assert("shell_exec"@[0] != "mouse_drag"@[0]);
    assert("shell_exec"@.len() != "key_press"@.len());
    assert("shell_exec"@.len() != "key_type"@.len());
    assert("shell_exec"@.len() != "key_paste"@.len());
    assert("shell_exec"@.len() != "clipboard_read"@.len());
    assert("shell_exec"@.len() != "clipboard_write"@.len());
    assert("shell_exec"@.len() != "open_app"@.len());
    assert("shell_exec"@.len() != "aegis"@.len());
    assert("shell_exec"@.len() != "ctx"@.len());
    assert("shell_exec"@.len() != "pause"@.len());
    assert("shell_exec"@.len() != "resume"@.len());
    assert("shell_exec"@.len() != "kill_switch"@.len());
    assert("shell_exec"@.len() != "sequence"@.len());
    assert("aegis"@.len() != "mouse_move"@.len());
    assert("aegis"@.len() != "mouse_click"@.len());
    assert("aegis"@.len() != "mouse_drag"@.len());
    assert("aegis"@.len() != "key_press"@.len());
    assert("aegis"@.len() != "key_type"@.len());
    assert("aegis"@.len() != "key_paste"@.len());
    assert("aegis"@.len() != "clipboard_read"@.len());
    assert("aegis"@.len() != "clipboard_write"@.len());
    assert("aegis"@.len() != "open_app"@.len());
    assert("aegis"@.len() != "shell_exec"@.len());
    assert("aegis"@.len() != "ctx"@.len());
    assert("aegis"@[0] != "pause"@[0]);
    assert("aegis"@.len() != "resume"@.len());
    assert("aegis"@.len() != "kill_switch"@.len());
    assert("aegis"@.len() != "sequence"@.len());
    assert("clipboard_read"@.len() != "mouse_move"@.len());
    assert("clipboard_read"@.len() != "mouse_click"@.len());
    assert("clipboard_read"@.len() != "mouse_drag"@.len());
    assert("clipboard_read"@.len() != "key_press"@.len());
    assert("clipboard_read"@.len() != "key_type"@.len());
    assert("clipboard_read"@.len() != "key_paste"@.len());
    assert("clipboard_read"@.len() != "clipboard_write"@.len());
    assert("clipboard_read"@.len() != "open_app"@.len());
    assert("clipboard_read"@.len() != "shell_exec"@.len());
    assert("clipboard_read"@.len() != "aegis"@.len());
    assert("clipboard_read"@.len() != "ctx"@.len());
    assert("clipboard_read"@.len() != "pause"@.len());
    assert("clipboard_read"@.len() != "resume"@.len());
    assert("clipboard_read"@.len() != "kill_switch"@.len());
    assert("clipboard_read"@.len() != "sequence"@.len());
    assert("ctx"@.len() != "mouse_move"@.len());
    assert("ctx"@.len() != "mouse_click"@.len());
    assert("ctx"@.len() != "mouse_drag"@.len());
    assert("ctx"@.len() != "key_press"@.len());
    assert("ctx"@.len() != "key_type"@.len());
    assert("ctx"@.len() != "key_paste"@.len());
    assert("ctx"@.len() != "clipboard_read"@.len());
    assert("ctx"@.len() != "clipboard_write"@.len());
    assert("ctx"@.len() != "open_app"@.len());
    assert("ctx"@.len() != "shell_exec"@.len());
    assert("ctx"@.len() != "aegis"@.len());
    assert("ctx"@.len() != "pause"@.len());
    assert("ctx"@.len() != "resume"@.len());
    assert("ctx"@.len() != "kill_switch"@.len());
    assert("ctx"@.len() != "sequence"@.len());
    assert("sequence"@.len() != "mouse_move"@.len());
    assert("sequence"@.len() != "mouse_click"@.len());
    assert("sequence"@.len() != "mouse_drag"@.len());
    assert("sequence"@.len() != "key_press"@.len());
    assert("sequence"@[0] != "key_type"@[0]);
    assert("sequence"@.len() != "key_paste"@.len());
    assert("sequence"@.len() != "clipboard_read"@.len());
    assert("sequence"@.len() != "clipboard_write"@.len());
    assert("sequence"@[0] != "open_app"@[0]);
    assert("sequence"@.len() != "shell_exec"@.len());
    assert("sequence"@.len() != "aegis"@.len());
    assert("sequence"@.len() != "ctx"@.len());
    assert("sequence"@.len() != "pause"@.len());
    assert("sequence"@.len() != "resume"@.len());
    assert("sequence"@.len() != "kill_switch"@.len());
}

/// An action is written with its kind and with what it is about, so that what is
/// written tells what to do.
pub proof fn lemma_action_is_written(
    text: Seq<char>,
    timeout_ms: u64,
    args: Seq<Seq<char>>,
    actions: Seq<ActionView>,
    i: int,
)
    ensures
        text_field(action_json(ActionView::KeyType { text }), "kind"@) == Some("key_type"@),
        text_field(action_json(ActionView::KeyType { text }), "text"@) == Some(text),
        text_field(action_json(ActionView::KeyPaste { text }), "kind"@) == Some("key_paste"@),
        text_field(action_json(ActionView::KeyPaste { text }), "text"@) == Some(text),
        text_field(action_json(ActionView::ClipboardWrite { text }), "kind"@) == Some(
            "clipboard_write"@,
        ),
        text_field(action_json(ActionView::ClipboardWrite { text }), "text"@) == Some(text),
        text_field(action_json(ActionView::KeyPress { combo: text }), "kind"@) == Some(
            "key_press"@,
        ),
        text_field(action_json(ActionView::KeyPress { combo: text }), "combo"@) == Some(text),
        text_field(action_json(ActionView::OpenApp { app_name: text }), "kind"@) == Some(
            "open_app"@,
        ),
        text_field(action_json(ActionView::OpenApp { app_name: text }), "app_name"@) == Some(text),
        text_field(
            action_json(ActionView::ShellExec { command: text, timeout_ms }),
            "kind"@,
        ) == Some("shell_exec"@),
        text_field(
            action_json(ActionView::ShellExec { command: text, timeout_ms }),
            "command"@,
        ) == Some(text),
        number_field(
            action_json(ActionView::ShellExec { command: text, timeout_ms }),
            "timeout_ms"@,
        ) == Some(timeout_ms),
        text_field(action_json(ActionView::Aegis { args, timeout_ms }), "kind"@) == Some(
            "aegis"@,
        ),
        array_field(action_json(ActionView::Aegis { args, timeout_ms }), "args"@) matches Some(
            items,
        ) && items.len() == args.len() && (0 <= i < args.len() ==> items[i] == JsonView::Text(
            args[i],
        )),
        ({
            let whole = action_json(
                ActionView::Sequence { actions, inter_action_delay_ms: timeout_ms },
            );
            &&& text_field(whole, "kind"@) == Some("sequence"@)
            &&& number_field(whole, "inter_action_delay_ms"@) == Some(timeout_ms)
            &&& array_field(whole, "actions"@) matches Some(items) && items.len() == actions.len()
                && (0 <= i < actions.len() ==> items[i] == action_json(actions[i]))
        }),
{
    reveal_strlit("kind");
    reveal_strlit("text");
    reveal_strlit("combo");
    reveal_strlit("app_name");
    reveal_strlit("command");
    reveal_strlit("timeout_ms");
    reveal_strlit("args");
    reveal_strlit("actions");
    reveal_strlit("inter_action_delay_ms");
    assert("kind"@[0] == 'k' && "text"@[0] == 't' && "args"@[0] == 'a');
    assert("combo"@.len() == 5 && "app_name"@.len() == 8 && "command"@.len() == 7);
    assert("actions"@.len() == 7 && "timeout_ms"@.len() == 10);
    assert("inter_action_delay_ms"@.len() == 21 && "kind"@.len() == 4);
    lemma_sequence_json(actions, timeout_ms);
}

/// The parts of a command that look for something that may not be there.
pub open spec fn is_probe(phrase: Seq<char>) -> bool {
    ||| phrase == "cat "@
    ||| phrase == "test "@
    ||| phrase == "[ -"@
    ||| phrase == "stat "@
    ||| phrase == "ls "@
}

/// A command with such a part can fail observably, whatever stands around it.
pub proof fn lemma_probe_is_known(before: Seq<char>, phrase: Seq<char>, after: Seq<char>)
    requires
        is_probe(lower(phrase)),
    ensures
        probes(before + phrase + after),
{
    lemma_phrase_stands(before, phrase, after);
}

/// A command that can fail observably has such a part.
pub proof fn lemma_known_probe_has_its_part(command: Seq<char>)
    requires
        probes(command),
    ensures
        exists|phrase: Seq<char>| is_probe(phrase) && #[trigger] has_text(lower(command), phrase),
{
    assert(is_probe("cat "@));
    assert(is_probe("test "@));
    assert(is_probe("[ -"@));
    assert(is_probe("stat "@));
    assert(is_probe("ls "@));
}

/// The parts of a command that repair something.
pub open spec fn is_repair(phrase: Seq<char>) -> bool {
    ||| phrase == "recover"@
    ||| phrase == "mkdir "@
    ||| phrase == "printf "@
    ||| phrase == "echo "@
    ||| phrase == "touch "@
    ||| phrase == " >"@
    ||| phrase == ">>"@
}

/// A command with such a part repairs something, whatever stands around it.
pub proof fn lemma_repair_is_known(before: Seq<char>, phrase: Seq<char>, after: Seq<char>)
    requires
        is_repair(lower(phrase)),
    ensures
        repairs(before + phrase + after),
{
    lemma_phrase_stands(before, phrase, after);
}

/// A command that repairs something has such a part.
pub proof fn lemma_known_repair_has_its_part(command: Seq<char>)
    requires
        repairs(command),
    ensures
        exists|phrase: Seq<char>| is_repair(phrase) && #[trigger] has_text(lower(command), phrase),
{
    assert(is_repair("recover"@));
    assert(is_repair("mkdir "@));
    assert(is_repair("printf "@));
    assert(is_repair("echo "@));
    assert(is_repair("touch "@));
    assert(is_repair(" >"@));
    assert(is_repair(">>"@));
}

/// What goes on after a command of a line.
pub open spec fn is_continuation(phrase: Seq<char>) -> bool {
    ||| phrase == "||"@
    ||| phrase == "&&"@
    ||| phrase == ";"@
    ||| phrase == "\n"@
}

/// A command line goes on where one of these stands in it.
pub proof fn lemma_continuation_is_known(before: Seq<char>, phrase: Seq<char>, after: Seq<char>)
    requires
        is_continuation(phrase),
    ensures
        continues(before + phrase + after),
{
    lemma_phrase_stands(before, phrase, after);
}

/// A command line that goes on has one of these.
pub proof fn lemma_known_continuation_is_there(command: Seq<char>)
    requires
        continues(command),
    ensures
        exists|phrase: Seq<char>| is_continuation(phrase) && #[trigger] has_text(command, phrase),
{
    assert(is_continuation("||"@));
    assert(is_continuation("&&"@));
    assert(is_continuation(";"@));
    assert(is_continuation("\n"@));
}

} // verus!
