//! Recorded actions: what the JSON object of an action says about it.

use vstd::prelude::*;

use crate::action::{
    action_json, lemma_action_is_written, lemma_kinds_differ, within, ActionView,
};
use crate::json::{
    array_field, field, field_is, lemma_same_as_itself, lemma_same_values_have_the_same_fields,
    number_field, same_json, text_field, views, with_field, Json, JsonView,
};
use crate::text::{lower, same, same_ignoring_case, texts};

verus! {

/// The strings among the items of a list, in order.
pub open spec fn text_items(items: Seq<JsonView>) -> Seq<Seq<char>>
    decreases items.len(),
{
    if items.len() == 0 {
        Seq::empty()
    } else {
        match items.last() {
            JsonView::Text(s) => text_items(items.drop_last()).push(s),
            _ => text_items(items.drop_last()),
        }
    }
}

/// The word behind the first `page`, if there is one.
pub open spec fn page_command(words: Seq<Seq<char>>) -> Option<Seq<char>>
    decreases words.len(),
{
    if words.len() == 0 {
        None
    } else if words[0] == "page"@ {
        if words.len() > 1 {
            Some(words[1])
        } else {
            None
        }
    } else {
        page_command(words.skip(1))
    }
}

/// The arguments look for text on the page.
pub open spec fn args_find(args: Seq<JsonView>) -> bool {
    page_command(text_items(args)) == Some("find"@)
}

/// The arguments only read the page.
pub open spec fn args_observe(args: Seq<JsonView>) -> bool {
    match page_command(text_items(args)) {
        Some(command) => {
            ||| command == "actions"@
            ||| command == "links"@
            ||| command == "text"@
            ||| command == "markdown"@
            ||| command == "find"@
        },
        None => false,
    }
}

/// The kind of an action.
pub open spec fn kind_is(action: JsonView, kind: Seq<char>) -> bool {
    field_is(action, "kind"@, kind)
}

/// The questions that are asked of the single actions of a recorded plan.
#[derive(Clone, Copy, Debug, PartialEq, Eq, Structural)]
pub enum StepTest {
    ShellExec,
    Aegis,
    /// It reads a page with Aegis.
    AegisObservation,
    /// It looks for text on a page with Aegis.
    AegisPageFind,
    ClipboardRead,
    OpenApp,
    /// It types, pastes or copies text.
    TextEntry,
    /// It types or pastes text where the user can see it.
    VisibleEntry,
    /// It looks at something without changing it.
    Observation,
}

/// An Aegis action that only reads the page.
pub open spec fn reads_page(action: JsonView) -> bool {
    &&& kind_is(action, "aegis"@)
    &&& array_field(action, "args"@) matches Some(args) && args_observe(args)
}

pub open spec fn step_passes(action: JsonView, test: StepTest) -> bool {
    match test {
        StepTest::ShellExec => kind_is(action, "shell_exec"@),
        StepTest::Aegis => kind_is(action, "aegis"@),
        StepTest::AegisObservation => reads_page(action),
        StepTest::AegisPageFind => {
            &&& kind_is(action, "aegis"@)
            &&& array_field(action, "args"@) matches Some(args) && args_find(args)
        },
        StepTest::ClipboardRead => kind_is(action, "clipboard_read"@),
        StepTest::OpenApp => kind_is(action, "open_app"@),
        StepTest::TextEntry => kind_is(action, "key_type"@) || kind_is(action, "key_paste"@)
            || kind_is(action, "clipboard_write"@),
        StepTest::VisibleEntry => kind_is(action, "key_type"@) || kind_is(action, "key_paste"@),
        StepTest::Observation => {
            ||| kind_is(action, "ctx"@)
            ||| kind_is(action, "clipboard_read"@)
            ||| reads_page(action)
        },
    }
}

/// The actions of a sequence; none, if it lists none.
pub open spec fn steps(action: JsonView) -> Seq<JsonView> {
    match array_field(action, "actions"@) {
        Some(items) => items,
        None => Seq::empty(),
    }
}

/// One of the single actions passes the test.
pub open spec fn any_step(action: JsonView, test: StepTest) -> bool
    decreases action,
{
    if kind_is(action, "sequence"@) {
        exists|i: int| 0 <= i < steps(action).len() && any_step(#[trigger] steps(action)[i], test)
    } else {
        step_passes(action, test)
    }
}

/// Every single action passes the test, and no sequence is empty.
pub open spec fn every_step(action: JsonView, test: StepTest) -> bool
    decreases action,
{
    if kind_is(action, "sequence"@) {
        steps(action).len() > 0 && forall|i: int|
            0 <= i < steps(action).len() ==> every_step(#[trigger] steps(action)[i], test)
    } else {
        step_passes(action, test)
    }
}

/// The strings among the items of a list, in order.
pub fn text_words(items: &Vec<Json>) -> (result: Vec<String>)
    ensures
        texts(result@) == text_items(views(items@)),
{
    let mut result: Vec<String> = Vec::new();
    let ghost all = views(items@);
    let mut i: usize = 0;
    assert(texts(result@) =~= text_items(all.take(0)));
    while i < items.len()
        invariant
            i <= items@.len(),
            all == views(items@),
            texts(result@) == text_items(all.take(i as int)),
        decreases items@.len() - i,
    {
        assert(all.take(i + 1).drop_last() =~= all.take(i as int));
        assert(all.take(i + 1).last() == items@[i as int]@);
        let ghost before = texts(result@);
        if let Some(s) = items[i].as_text() {
            result.push(s.clone());
            assert(texts(result@) =~= before.push(s@));
        }
        i = i + 1;
    }
    assert(all.take(all.len() as int) =~= all);
    result
}

fn page_word(words: &Vec<String>) -> (position: Option<usize>)
    ensures
        match position {
            Some(i) => i < words@.len() && page_command(texts(words@)) == Some(words@[i as int]@),
            None => page_command(texts(words@)) is None,
        },
{
    let ghost all = texts(words@);
    let mut i: usize = 0;
    assert(all.skip(0) =~= all);
    while i < words.len()
        invariant
            i <= words@.len(),
            all == texts(words@),
            page_command(all) == page_command(all.skip(i as int)),
        decreases words@.len() - i,
    {
        if same(words[i].as_str(), "page") {
            if i + 1 < words.len() {
                return Some(i + 1);
            }
            return None;
        }
        assert(all.skip(i as int).skip(1) =~= all.skip(i + 1));
        i = i + 1;
    }
    None
}

/// Whether the arguments look for text on the page.
pub fn aegis_args_are_page_find(args: &Vec<Json>) -> (found: bool)
    ensures
        found == args_find(views(args@)),
{
    let words = text_words(args);
    match page_word(&words) {
        Some(i) => same(words[i].as_str(), "find"),
        None => false,
    }
}

/// Whether the arguments only read the page.
pub fn aegis_args_are_observation_only(args: &Vec<Json>) -> (found: bool)
    ensures
        found == args_observe(views(args@)),
{
    let words = text_words(args);
    match page_word(&words) {
        Some(i) => {
            let command = words[i].as_str();
            same(command, "actions") || same(command, "links") || same(command, "text") || same(
                command,
                "markdown",
            ) || same(command, "find")
        },
        None => false,
    }
}

fn observes_page(action: &Json) -> (found: bool)
    ensures
        found == (array_field(action@, "args"@) matches Some(args) && args_observe(args)),
{
    match action.get_array("args") {
        Some(args) => aegis_args_are_observation_only(args),
        None => false,
    }
}

fn finds_on_page(action: &Json) -> (found: bool)
    ensures
        found == (array_field(action@, "args"@) matches Some(args) && args_find(args)),
{
    match action.get_array("args") {
        Some(args) => aegis_args_are_page_find(args),
        None => false,
    }
}

fn has_kind(action: &Json, kind: &str) -> (found: bool)
    ensures
        found == kind_is(action@, kind@),
{
    action.text_is("kind", kind)
}

fn passes(action: &Json, test: StepTest) -> (found: bool)
    ensures
        found == step_passes(action@, test),
{
    match test {
        StepTest::ShellExec => has_kind(action, "shell_exec"),
        StepTest::Aegis => has_kind(action, "aegis"),
        StepTest::AegisObservation => has_kind(action, "aegis") && observes_page(action),
        StepTest::AegisPageFind => has_kind(action, "aegis") && finds_on_page(action),
        StepTest::ClipboardRead => has_kind(action, "clipboard_read"),
        StepTest::OpenApp => has_kind(action, "open_app"),
        StepTest::TextEntry => has_kind(action, "key_type") || has_kind(action, "key_paste")
            || has_kind(action, "clipboard_write"),
        StepTest::VisibleEntry => has_kind(action, "key_type") || has_kind(action, "key_paste"),
        StepTest::Observation => has_kind(action, "ctx") || has_kind(action, "clipboard_read") || (
        has_kind(action, "aegis") && observes_page(action)),
    }
}

proof fn lemma_any_step(action: JsonView, i: int, test: StepTest)
    requires
        kind_is(action, "sequence"@),
        0 <= i < steps(action).len(),
        any_step(steps(action)[i], test),
    ensures
        any_step(action, test),
{
}

proof fn lemma_every_step(action: JsonView, i: int, test: StepTest)
    requires
        kind_is(action, "sequence"@),
        0 <= i < steps(action).len(),
        !every_step(steps(action)[i], test),
    ensures
        !every_step(action, test),
{
}

/// Whether one of the single actions passes the test.
pub fn has_step(action: &Json, test: StepTest) -> (found: bool)
    ensures
        found == any_step(action@, test),
    decreases action,
{
    if has_kind(action, "sequence") {
        match action.get_array("actions") {
            Some(items) => {
                let mut i: usize = 0;
                while i < items.len()
                    invariant
                        i <= items@.len(),
                        kind_is(action@, "sequence"@),
                        steps(action@) == views(items@),
                        decreases_to!(action => items),
                        forall|j: int| 0 <= j < i ==> !any_step(#[trigger] steps(action@)[j], test),
                    decreases items@.len() - i,
                {
                    assert(decreases_to!(items => items[i as int]));
                    if has_step(&items[i], test) {
                        proof {
                            lemma_any_step(action@, i as int, test);
                        }
                        return true;
                    }
                    i = i + 1;
                }
                false
            },
            None => false,
        }
    } else {
        passes(action, test)
    }
}

/// Whether every single action passes the test, with no empty sequence.
pub fn has_only_steps(action: &Json, test: StepTest) -> (found: bool)
    ensures
        found == every_step(action@, test),
    decreases action,
{
    if has_kind(action, "sequence") {
        match action.get_array("actions") {
            Some(items) => {
                let mut i: usize = 0;
                while i < items.len()
                    invariant
                        i <= items@.len(),
                        kind_is(action@, "sequence"@),
                        steps(action@) == views(items@),
                        decreases_to!(action => items),
                        forall|j: int| 0 <= j < i ==> every_step(#[trigger] steps(action@)[j], test),
                    decreases items@.len() - i,
                {
                    assert(decreases_to!(items => items[i as int]));
                    if !has_only_steps(&items[i], test) {
                        proof {
                            lemma_every_step(action@, i as int, test);
                        }
                        return false;
                    }
                    i = i + 1;
                }
                items.len() > 0
            },
            None => false,
        }
    } else {
        passes(action, test)
    }
}

/// Whether the plan runs a shell command.
pub fn json_action_uses_shell_exec(action: &Json) -> (found: bool)
    ensures
        found == any_step(action@, StepTest::ShellExec),
{
    has_step(action, StepTest::ShellExec)
}

/// Whether the plan uses Aegis.
pub fn json_action_uses_aegis(action: &Json) -> (found: bool)
    ensures
        found == any_step(action@, StepTest::Aegis),
{
    has_step(action, StepTest::Aegis)
}

/// Whether the plan reads a page with Aegis.
pub fn json_action_uses_aegis_observation(action: &Json) -> (found: bool)
    ensures
        found == any_step(action@, StepTest::AegisObservation),
{
    has_step(action, StepTest::AegisObservation)
}

/// Whether the plan looks for text on a page with Aegis.
pub fn json_action_uses_aegis_page_find(action: &Json) -> (found: bool)
    ensures
        found == any_step(action@, StepTest::AegisPageFind),
{
    has_step(action, StepTest::AegisPageFind)
}

/// Whether the plan reads the clipboard.
pub fn json_action_uses_clipboard_read(action: &Json) -> (found: bool)
    ensures
        found == any_step(action@, StepTest::ClipboardRead),
{
    has_step(action, StepTest::ClipboardRead)
}

/// Whether the plan enters text.
pub fn action_is_text_entry(action: &Json) -> (found: bool)
    ensures
        found == any_step(action@, StepTest::TextEntry),
{
    has_step(action, StepTest::TextEntry)
}

/// Whether the plan enters text that the user can see, and that has to be
/// looked at again before the turn ends.
pub fn action_requires_visible_reobserve_before_finish(action: &Json) -> (found: bool)
    ensures
        found == any_step(action@, StepTest::VisibleEntry),
{
    has_step(action, StepTest::VisibleEntry)
}

/// Whether the plan does nothing but open applications.
pub fn action_is_open_only_setup(action: &Json) -> (found: bool)
    ensures
        found == every_step(action@, StepTest::OpenApp),
{
    has_only_steps(action, StepTest::OpenApp)
}

/// Whether the plan only looks at things.
pub fn action_is_observation_only(action: &Json) -> (found: bool)
    ensures
        found == every_step(action@, StepTest::Observation),
{
    has_only_steps(action, StepTest::Observation)
}

/// The kinds of actions that move long work forward.
pub open spec fn advances(action: JsonView) -> bool {
    ||| kind_is(action, "sequence"@)
    ||| kind_is(action, "open_app"@)
    ||| kind_is(action, "mouse_click"@)
    ||| kind_is(action, "key_press"@)
    ||| kind_is(action, "key_type"@)
    ||| kind_is(action, "key_paste"@)
    ||| kind_is(action, "clipboard_write"@)
    ||| kind_is(action, "shell_exec"@)
    ||| kind_is(action, "aegis"@)
    ||| kind_is(action, "ctx"@)
}

/// Whether an action is of a kind that moves long work forward.
pub fn action_can_advance_long_range_goal(action: &Json) -> (found: bool)
    ensures
        found == advances(action@),
{
    has_kind(action, "sequence") || has_kind(action, "open_app") || has_kind(action, "mouse_click")
        || has_kind(action, "key_press") || has_kind(action, "key_type") || has_kind(
        action,
        "key_paste",
    ) || has_kind(action, "clipboard_write") || has_kind(action, "shell_exec") || has_kind(
        action,
        "aegis",
    ) || has_kind(action, "ctx")
}

pub open spec fn is_query_entry(action: JsonView) -> bool {
    kind_is(action, "key_type"@) || kind_is(action, "key_paste"@)
}

pub open spec fn is_submit(action: JsonView) -> bool {
    &&& kind_is(action, "key_press"@)
    &&& text_field(action, "combo"@) matches Some(combo) && lower(combo) == lower("enter"@)
}

/// The plan enters a query and submits it.
pub open spec fn sets_up_search(action: JsonView) -> bool {
    &&& exists|i: int| 0 <= i < steps(action).len() && is_query_entry(#[trigger] steps(action)[i])
    &&& exists|i: int| 0 <= i < steps(action).len() && is_submit(#[trigger] steps(action)[i])
}

/// Whether the plan enters a query and submits it.
pub fn action_is_browser_research_setup(action: &Json) -> (found: bool)
    ensures
        found == sets_up_search(action@),
{
    match action.get_array("actions") {
        Some(items) => {
            let mut query = false;
            let mut submit = false;
            let mut i: usize = 0;
            while i < items.len()
                invariant
                    i <= items@.len(),
                    steps(action@) == views(items@),
                    query == exists|j: int|
                        0 <= j < i && is_query_entry(#[trigger] steps(action@)[j]),
                    submit == exists|j: int| 0 <= j < i && is_submit(#[trigger] steps(action@)[j]),
                decreases items@.len() - i,
            {
                let item = &items[i];
                assert(steps(action@)[i as int] == item@);
                if has_kind(item, "key_type") || has_kind(item, "key_paste") {
                    query = true;
                }
                if has_kind(item, "key_press") {
                    if let Some(combo) = item.get_text("combo") {
                        if same_ignoring_case(combo.as_str(), "enter") {
                            submit = true;
                        }
                    }
                }
                i = i + 1;
            }
            query && submit
        },
        None => false,
    }
}

/// Two recorded plans ask for the same thing. In sequences only the single
/// actions count, not the pauses between them.
pub open spec fn same_intent(left: JsonView, right: JsonView) -> bool
    decreases left,
{
    &&& text_field(left, "kind"@) == text_field(right, "kind"@)
    &&& if kind_is(left, "sequence"@) {
        match (array_field(left, "actions"@), array_field(right, "actions"@)) {
            (Some(xs), Some(ys)) => xs.len() == ys.len() && forall|i: int|
                0 <= i < xs.len() ==> same_intent(#[trigger] xs[i], ys[i]),
            _ => false,
        }
    } else {
        same_json(left, right)
    }
}

/// Whether two recorded plans ask for the same thing.
pub fn actions_have_same_intent(left: &Json, right: &Json) -> (found: bool)
    ensures
        found == same_intent(left@, right@),
    decreases left,
{
    let same_kind = match (left.get_text("kind"), right.get_text("kind")) {
        (Some(a), Some(b)) => same(a.as_str(), b.as_str()),
        (None, None) => true,
        _ => false,
    };
    if !same_kind {
        return false;
    }
    if has_kind(left, "sequence") {
        match (left.get_array("actions"), right.get_array("actions")) {
            (Some(xs), Some(ys)) => {
                if xs.len() != ys.len() {
                    return false;
                }
                let ghost lefts = views(xs@);
                let ghost rights = views(ys@);
                let mut i: usize = 0;
                while i < xs.len()
                    invariant
                        i <= xs@.len() == ys@.len(),
                        lefts == views(xs@),
                        rights == views(ys@),
                        kind_is(left@, "sequence"@),
                        text_field(left@, "kind"@) == text_field(right@, "kind"@),
                        array_field(left@, "actions"@) == Some(lefts),
                        array_field(right@, "actions"@) == Some(rights),
                        decreases_to!(left => xs),
                        forall|j: int| 0 <= j < i ==> same_intent(#[trigger] lefts[j], rights[j]),
                    decreases xs@.len() - i,
                {
                    assert(decreases_to!(xs => xs[i as int]));
                    if !actions_have_same_intent(&xs[i], &ys[i]) {
                        assert(!same_intent(lefts[i as int], rights[i as int]));
                        return false;
                    }
                    i = i + 1;
                }
                true
            },
            _ => false,
        }
    } else {
        left.same_as(right)
    }
}

/// The plan enters the text: one of its single actions types, pastes or copies
/// exactly that.
pub open spec fn enters(action: JsonView, text: Seq<char>) -> bool
    decreases action,
{
    if text_field(action, "kind"@) == Some("sequence"@) {
        array_field(action, "actions"@) matches Some(items) && exists|i: int|
            0 <= i < items.len() && enters(#[trigger] items[i], text)
    } else {
        &&& text_field(action, "text"@) == Some(text)
        &&& text_field(action, "kind"@) == Some("key_type"@) || text_field(action, "kind"@) == Some(
            "key_paste"@,
        ) || text_field(action, "kind"@) == Some("clipboard_write"@)
    }
}

/// Plans that ask for the same thing enter the same texts.
pub proof fn lemma_same_intent_enters_the_same_text(
    left: JsonView,
    right: JsonView,
    text: Seq<char>,
)
    requires
        same_intent(left, right),
    ensures
        enters(left, text) <==> enters(right, text),
    decreases left,
{
    if kind_is(left, "sequence"@) {
        let xs = array_field(left, "actions"@)->Some_0;
        let ys = array_field(right, "actions"@)->Some_0;
        assert forall|i: int| 0 <= i < xs.len() implies (enters(#[trigger] xs[i], text) <==> enters(
            ys[i],
            text,
        )) by {
            assert(decreases_to!(left => xs[i]));
            lemma_same_intent_enters_the_same_text(xs[i], ys[i], text);
        }
        if enters(left, text) {
            let i = choose|i: int| 0 <= i < xs.len() && enters(#[trigger] xs[i], text);
            assert(enters(ys[i], text));
        }
        if enters(right, text) {
            let i = choose|i: int| 0 <= i < ys.len() && enters(#[trigger] ys[i], text);
            assert(enters(xs[i], text));
        }
    } else {
        lemma_same_values_have_the_same_fields(left, right, "kind"@);
        lemma_same_values_have_the_same_fields(left, right, "text"@);
    }
}

/// Two sequences ask for the same thing exactly if they are equally long and
/// agree in every step, the last one among them.
pub proof fn lemma_sequences_agree_in_every_step(
    left: JsonView,
    right: JsonView,
    xs: Seq<JsonView>,
    ys: Seq<JsonView>,
)
    requires
        text_field(left, "kind"@) == Some("sequence"@),
        text_field(right, "kind"@) == Some("sequence"@),
        array_field(left, "actions"@) == Some(xs),
        array_field(right, "actions"@) == Some(ys),
    ensures
        xs.len() != ys.len() ==> !same_intent(left, right),
        forall|i: int|
            0 <= i < xs.len() && !same_intent(#[trigger] xs[i], ys[i]) ==> !same_intent(left, right),
        xs.len() == ys.len() && (forall|i: int|
            0 <= i < xs.len() ==> same_intent(#[trigger] xs[i], ys[i])) ==> same_intent(left, right),
{
}

/// Two single actions ask for the same thing exactly if they are the same value.
pub proof fn lemma_single_actions_agree_in_every_field(
    left: JsonView,
    right: JsonView,
    key: Seq<char>,
)
    requires
        text_field(left, "kind"@) != Some("sequence"@),
    ensures
        left == right ==> same_intent(left, right),
        text_field(left, key) != text_field(right, key) ==> !same_intent(left, right),
        number_field(left, key) != number_field(right, key) ==> !same_intent(left, right),
        field(left, key) is Some && field(right, key) is None ==> !same_intent(left, right),
{
    lemma_same_as_itself(left);
    if same_intent(left, right) {
        lemma_same_values_have_the_same_fields(left, right, key);
    }
}

/// Two sequences with another text in one of their steps do not ask for the same
/// thing, and neither do plans of different kinds.
pub proof fn lemma_another_text_is_another_intent(
    left: JsonView,
    right: JsonView,
    xs: Seq<JsonView>,
    ys: Seq<JsonView>,
    i: int,
)
    requires
        array_field(left, "actions"@) == Some(xs),
        array_field(right, "actions"@) == Some(ys),
        0 <= i < xs.len(),
        0 <= i < ys.len(),
        text_field(xs[i], "kind"@) != Some("sequence"@),
        text_field(xs[i], "text"@) != text_field(ys[i], "text"@),
        text_field(left, "kind"@) == Some("sequence"@),
    ensures
        !same_intent(left, right),
{
    if same_intent(left, right) {
        assert(same_intent(xs[i], ys[i]));
        lemma_same_values_have_the_same_fields(xs[i], ys[i], "text"@);
    }
}

/// How long the pauses of a sequence are, or whatever else is noted of it beside
/// its actions, leaves what it asks for as it is.
pub proof fn lemma_pauses_leave_the_intent(
    left: JsonView,
    right: JsonView,
    key: Seq<char>,
    value: JsonView,
)
    requires
        text_field(left, "kind"@) == Some("sequence"@),
        key != "kind"@,
        key != "actions"@,
    ensures
        same_intent(with_field(left, key, value), right) == same_intent(left, right),
        same_intent(right, with_field(left, key, value)) == same_intent(right, left),
{
    let noted = with_field(left, key, value);
    assert(field(noted, "kind"@) == field(left, "kind"@));
    assert(field(noted, "actions"@) == field(left, "actions"@));
    assert(text_field(noted, "kind"@) == text_field(left, "kind"@));
    assert(array_field(noted, "actions"@) == array_field(left, "actions"@));
}

/// A single action of a plan is found in what is written of the plan, however
/// deep it stands.
pub proof fn lemma_written_part_is_found(part: ActionView, whole: ActionView)
    requires
        within(part, whole),
    ensures
        part is ShellExec ==> any_step(action_json(whole), StepTest::ShellExec),
        part is Aegis ==> any_step(action_json(whole), StepTest::Aegis),
        part is ClipboardRead ==> any_step(action_json(whole), StepTest::ClipboardRead),
        part is OpenApp ==> any_step(action_json(whole), StepTest::OpenApp),
        part is KeyType || part is KeyPaste ==> any_step(action_json(whole), StepTest::TextEntry)
            && any_step(action_json(whole), StepTest::VisibleEntry),
        part is ClipboardWrite ==> any_step(action_json(whole), StepTest::TextEntry),
        !(part is OpenApp) ==> !every_step(action_json(whole), StepTest::OpenApp),
        !(part is Ctx || part is ClipboardRead || part is Aegis) ==> !every_step(
            action_json(whole),
            StepTest::Observation,
        ),
        part matches ActionView::KeyType { text } ==> enters(action_json(whole), text),
        part matches ActionView::KeyPaste { text } ==> enters(action_json(whole), text),
        part matches ActionView::ClipboardWrite { text } ==> enters(action_json(whole), text),
    decreases whole,
{
    let written = action_json(whole);
    lemma_kinds_differ();
    match whole {
        ActionView::Sequence { actions, inter_action_delay_ms } => {
            let i = choose|i: int| 0 <= i < actions.len() && within(part, #[trigger] actions[i]);
            assert(decreases_to!(whole => actions[i]));
            lemma_written_part_is_found(part, actions[i]);
            lemma_action_is_written(
                Seq::empty(),
                inter_action_delay_ms,
                Seq::empty(),
                actions,
                i,
            );
            assert(steps(written)[i] == action_json(actions[i]));
        },
        ActionView::KeyType { text } => {
            lemma_action_is_written(text, 0, Seq::empty(), Seq::empty(), 0);
        },
        ActionView::KeyPaste { text } => {
            lemma_action_is_written(text, 0, Seq::empty(), Seq::empty(), 0);
        },
        ActionView::ClipboardWrite { text } => {
            lemma_action_is_written(text, 0, Seq::empty(), Seq::empty(), 0);
        },
        ActionView::KeyPress { combo } => {
            lemma_action_is_written(combo, 0, Seq::empty(), Seq::empty(), 0);
        },
        ActionView::OpenApp { app_name } => {
            lemma_action_is_written(app_name, 0, Seq::empty(), Seq::empty(), 0);
        },
        ActionView::ShellExec { command, timeout_ms } => {
            lemma_action_is_written(command, timeout_ms, Seq::empty(), Seq::empty(), 0);
        },
        ActionView::Aegis { args, timeout_ms } => {
            lemma_action_is_written(Seq::empty(), timeout_ms, args, Seq::empty(), 0);
        },
        _ => {
            reveal_strlit("kind");
            reveal_strlit("args");
            reveal_strlit("workspace_root");
            reveal_strlit("timeout_ms");
            assert("kind"@[0] != "args"@[0]);
            assert("kind"@.len() == 4 && "workspace_root"@.len() == 14 && "timeout_ms"@.len() == 10);
        },
    }
}

/// What is found in what is written of a plan is one of its single actions.
pub proof fn lemma_found_step_is_there(whole: ActionView, test: StepTest) -> (part: ActionView)
    requires
        any_step(action_json(whole), test),
    ensures
        within(part, whole),
        match test {
            StepTest::ShellExec => part is ShellExec,
            StepTest::Aegis => part is Aegis,
            StepTest::AegisObservation => part is Aegis,
            StepTest::AegisPageFind => part is Aegis,
            StepTest::ClipboardRead => part is ClipboardRead,
            StepTest::OpenApp => part is OpenApp,
            StepTest::TextEntry => part is KeyType || part is KeyPaste || part is ClipboardWrite,
            StepTest::VisibleEntry => part is KeyType || part is KeyPaste,
            StepTest::Observation => part is Ctx || part is ClipboardRead || part is Aegis,
        },
    decreases whole,
{
    let written = action_json(whole);
    lemma_kinds_differ();
    match whole {
        ActionView::Sequence { actions, inter_action_delay_ms } => {
            lemma_action_is_written(
                Seq::empty(),
                inter_action_delay_ms,
                Seq::empty(),
                actions,
                0,
            );
            let i = choose|i: int|
                0 <= i < steps(written).len() && any_step(#[trigger] steps(written)[i], test);
            lemma_action_is_written(
                Seq::empty(),
                inter_action_delay_ms,
                Seq::empty(),
                actions,
                i,
            );
            assert(decreases_to!(whole => actions[i]));
            lemma_found_step_is_there(actions[i], test)
        },
        ActionView::KeyType { text } => {
            lemma_action_is_written(text, 0, Seq::empty(), Seq::empty(), 0);
            whole
        },
        ActionView::KeyPaste { text } => {
            lemma_action_is_written(text, 0, Seq::empty(), Seq::empty(), 0);
            whole
        },
        ActionView::ClipboardWrite { text } => {
            lemma_action_is_written(text, 0, Seq::empty(), Seq::empty(), 0);
            whole
        },
        ActionView::KeyPress { combo } => {
            lemma_action_is_written(combo, 0, Seq::empty(), Seq::empty(), 0);
            whole
        },
        ActionView::OpenApp { app_name } => {
            lemma_action_is_written(app_name, 0, Seq::empty(), Seq::empty(), 0);
            whole
        },
        ActionView::ShellExec { command, timeout_ms } => {
            lemma_action_is_written(command, timeout_ms, Seq::empty(), Seq::empty(), 0);
            whole
        },
        ActionView::Aegis { args, timeout_ms } => {
            lemma_action_is_written(Seq::empty(), timeout_ms, args, Seq::empty(), 0);
            whole
        },
        _ => {
            reveal_strlit("kind");
            reveal_strlit("args");
            reveal_strlit("workspace_root");
            reveal_strlit("timeout_ms");
            assert("kind"@[0] != "args"@[0]);
            assert("kind"@.len() == 4 && "workspace_root"@.len() == 14 && "timeout_ms"@.len() == 10);
            whole
        },
    }
}

/// The command for a page is the word behind the first `page`, wherever that
/// stands.
pub proof fn lemma_page_command_follows_page(
    before: Seq<Seq<char>>,
    command: Seq<char>,
    after: Seq<Seq<char>>,
)
    requires
        !before.contains("page"@),
    ensures
        page_command(before + seq!["page"@, command] + after) == Some(command),
        page_command(before) is None,
        page_command(before.push("page"@)) is None,
    decreases before.len(),
{
    let whole = before + seq!["page"@, command] + after;
    if before.len() == 0 {
        assert(whole[0] == "page"@ && whole[1] == command);
        assert(before.push("page"@)[0] == "page"@);
    } else {
        let rest = before.skip(1);
        assert(before.contains(before[0]));
        assert(!rest.contains("page"@)) by {
            if rest.contains("page"@) {
                let i = choose|i: int| 0 <= i < rest.len() && rest[i] == "page"@;
                assert(before[i + 1] == "page"@);
            }
        }
        lemma_page_command_follows_page(rest, command, after);
        assert(whole[0] == before[0]);
        assert(whole.skip(1) =~= rest + seq!["page"@, command] + after);
        assert(before.push("page"@).skip(1) =~= rest.push("page"@));
    }
}

/// Of a list only the strings are words, in their order.
pub proof fn lemma_words_among_items(a: Seq<JsonView>, b: Seq<JsonView>, word: Seq<char>)
    ensures
        text_items(a + b) == text_items(a) + text_items(b),
        text_items(seq![JsonView::Text(word)]) == seq![word],
        text_items(seq![JsonView::Null]) == Seq::<Seq<char>>::empty(),
    decreases b.len(),
{
    let one = seq![JsonView::Text(word)];
    assert(one.drop_last() =~= Seq::<JsonView>::empty());
    assert(text_items(Seq::<JsonView>::empty()) =~= Seq::<Seq<char>>::empty());
    assert(text_items(one) =~= seq![word]);
    assert(seq![JsonView::Null].drop_last() =~= Seq::<JsonView>::empty());
    assert(text_items(seq![JsonView::Null]) =~= Seq::<Seq<char>>::empty());
    if b.len() == 0 {
        assert(a + b =~= a);
        assert(text_items(a) + text_items(b) =~= text_items(a));
    } else {
        lemma_words_among_items(a, b.drop_last(), word);
        assert((a + b).drop_last() =~= a + b.drop_last());
        assert((a + b).last() == b.last());
        assert(text_items(a + b) =~= text_items(a) + text_items(b));
    }
}

/// Reading the actions, the links, the text or the markdown of a page, or looking
/// for text on it, changes nothing; looking for text is the one that finds; any
/// other command may change the page.
pub proof fn lemma_commands_that_read(args: Seq<JsonView>, command: Seq<char>)
    requires
        page_command(text_items(args)) == Some(command),
    ensures
        command == "find"@ ==> args_find(args) && args_observe(args),
        command == "text"@ || command == "links"@ || command == "actions"@ || command == "markdown"@
            ==> args_observe(args) && !args_find(args),
        !(command == "find"@ || command == "text"@ || command == "links"@ || command == "actions"@
            || command == "markdown"@) ==> !args_observe(args) && !args_find(args),
{
    reveal_strlit("find");
    reveal_strlit("text");
    reveal_strlit("links");
    reveal_strlit("actions");
    reveal_strlit("markdown");
    assert("find"@[0] != "text"@[0]);
    assert("find"@.len() == 4 && "links"@.len() == 5 && "actions"@.len() == 7 && "markdown"@.len()
        == 8);
}

/// A search is set up by a query and a press of the enter key, in any order and
/// whatever else is done; without one of them it is not.
pub proof fn lemma_search_needs_query_and_enter(action: JsonView, items: Seq<JsonView>, i: int, j: int)
    requires
        array_field(action, "actions"@) == Some(items),
    ensures
        0 <= i < items.len() && 0 <= j < items.len() && (text_field(items[i], "kind"@) == Some(
            "key_type"@,
        ) || text_field(items[i], "kind"@) == Some("key_paste"@)) && text_field(items[j], "kind"@)
            == Some("key_press"@) && (text_field(items[j], "combo"@) matches Some(combo) && lower(
            combo,
        ) == "enter"@) ==> sets_up_search(action),
        (forall|k: int|
            0 <= k < items.len() ==> text_field(#[trigger] items[k], "kind"@) != Some("key_press"@))
            ==> !sets_up_search(action),
        (forall|k: int|
            0 <= k < items.len() ==> text_field(#[trigger] items[k], "kind"@) != Some("key_type"@)
                && text_field(items[k], "kind"@) != Some("key_paste"@)) ==> !sets_up_search(action),
{
    reveal_strlit("enter");
    assert(lower("enter"@) =~= "enter"@);
    if 0 <= i < items.len() {
        assert(steps(action)[i] == items[i]);
    }
    if 0 <= j < items.len() {
        assert(steps(action)[j] == items[j]);
    }
}

/// A single action is asked for by its kind: what runs in a shell, what Aegis
/// does, what is opened and what is entered; a page is read only by an Aegis
/// action whose arguments read one.
pub proof fn lemma_kind_tells_the_action(action: JsonView, test: StepTest)
    requires
        text_field(action, "kind"@) != Some("sequence"@),
    ensures
        any_step(action, StepTest::ShellExec) <==> text_field(action, "kind"@) == Some(
            "shell_exec"@,
        ),
        any_step(action, StepTest::Aegis) <==> text_field(action, "kind"@) == Some("aegis"@),
        any_step(action, StepTest::ClipboardRead) <==> text_field(action, "kind"@) == Some(
            "clipboard_read"@,
        ),
        any_step(action, StepTest::OpenApp) <==> text_field(action, "kind"@) == Some("open_app"@),
        any_step(action, StepTest::VisibleEntry) <==> text_field(action, "kind"@) == Some(
            "key_type"@,
        ) || text_field(action, "kind"@) == Some("key_paste"@),
        any_step(action, StepTest::TextEntry) <==> any_step(action, StepTest::VisibleEntry)
            || text_field(action, "kind"@) == Some("clipboard_write"@),
        any_step(action, StepTest::AegisObservation) ==> any_step(action, StepTest::Aegis),
        any_step(action, StepTest::AegisPageFind) ==> any_step(action, StepTest::Aegis),
        array_field(action, "args"@) is None ==> !any_step(action, StepTest::AegisObservation)
            && !any_step(action, StepTest::AegisPageFind),
        array_field(action, "args"@) matches Some(args) ==> {
            &&& any_step(action, StepTest::AegisObservation) <==> any_step(action, StepTest::Aegis)
                && args_observe(args)
            &&& any_step(action, StepTest::AegisPageFind) <==> any_step(action, StepTest::Aegis)
                && args_find(args)
        },
        any_step(action, StepTest::Observation) <==> text_field(action, "kind"@) == Some("ctx"@)
            || any_step(action, StepTest::ClipboardRead) || any_step(
            action,
            StepTest::AegisObservation,
        ),
        every_step(action, test) <==> any_step(action, test),
{
}

/// Long work moves forward by what opens, clicks, presses, enters, runs or
/// remembers something, and not by a move of the mouse, a glance at the clipboard
/// or an order to the assistant.
pub proof fn lemma_what_moves_work_forward(action: JsonView)
    ensures
        text_field(action, "kind"@) == Some("sequence"@) ==> advances(action),
        text_field(action, "kind"@) == Some("open_app"@) ==> advances(action),
        text_field(action, "kind"@) == Some("mouse_click"@) ==> advances(action),
        text_field(action, "kind"@) == Some("key_press"@) ==> advances(action),
        text_field(action, "kind"@) == Some("key_type"@) ==> advances(action),
        text_field(action, "kind"@) == Some("key_paste"@) ==> advances(action),
        text_field(action, "kind"@) == Some("clipboard_write"@) ==> advances(action),
        text_field(action, "kind"@) == Some("shell_exec"@) ==> advances(action),
        text_field(action, "kind"@) == Some("aegis"@) ==> advances(action),
        text_field(action, "kind"@) == Some("ctx"@) ==> advances(action),
        text_field(action, "kind"@) == Some("mouse_move"@) ==> !advances(action),
        text_field(action, "kind"@) == Some("mouse_drag"@) ==> !advances(action),
        text_field(action, "kind"@) == Some("clipboard_read"@) ==> !advances(action),
        text_field(action, "kind"@) == Some("pause"@) ==> !advances(action),
        text_field(action, "kind"@) == Some("resume"@) ==> !advances(action),
        text_field(action, "kind"@) == Some("kill_switch"@) ==> !advances(action),
        text_field(action, "kind"@) is None ==> !advances(action),
{
    reveal_strlit("sequence");
    reveal_strlit("open_app");
    reveal_strlit("mouse_click");
    reveal_strlit("key_press");
    reveal_strlit("key_type");
    reveal_strlit("key_paste");
    reveal_strlit("clipboard_write");
    reveal_strlit("shell_exec");
    reveal_strlit("aegis");
    reveal_strlit("ctx");
    reveal_strlit("mouse_move");
    reveal_strlit("mouse_drag");
    reveal_strlit("clipboard_read");
    reveal_strlit("pause");
    reveal_strlit("resume");
    reveal_strlit("kill_switch");
    assert("sequence"@[0] != "open_app"@[0]);
    assert("sequence"@[0] != "key_type"@[0]);
    assert("open_app"@[0] != "key_type"@[0]);
    assert("mouse_click"@[0] != "kill_switch"@[0]);
    assert("key_press"@[5] != "key_paste"@[5]);
    assert("shell_exec"@[0] != "mouse_move"@[0]);
    assert("shell_exec"@[0] != "mouse_drag"@[0]);
    assert("aegis"@[0] != "pause"@[0]);
    assert("mouse_move"@[6] != "mouse_drag"@[6]);
    assert("sequence"@.len() == 8);
    assert("open_app"@.len() == 8);
    assert("mouse_click"@.len() == 11);
    assert("key_press"@.len() == 9);
    assert("key_type"@.len() == 8);
    assert("key_paste"@.len() == 9);
    assert("clipboard_write"@.len() == 15);
    assert("shell_exec"@.len() == 10);
    assert("aegis"@.len() == 5);
    assert("ctx"@.len() == 3);
    assert("mouse_move"@.len() == 10);
    assert("mouse_drag"@.len() == 10);
    assert("clipboard_read"@.len() == 14);
    assert("pause"@.len() == 5);
    assert("resume"@.len() == 6);
    assert("kill_switch"@.len() == 11);
}

/// A sequence passes as a whole exactly if it has actions and each of them
/// passes, and in part if one of them does.
pub proof fn lemma_sequence_passes_by_its_actions(
    action: JsonView,
    items: Seq<JsonView>,
    test: StepTest,
)
    requires
        text_field(action, "kind"@) == Some("sequence"@),
        array_field(action, "actions"@) == Some(items),
    ensures
        items.len() == 0 ==> !every_step(action, test) && !any_step(action, test),
        items.len() > 0 && (forall|i: int|
            0 <= i < items.len() ==> every_step(#[trigger] items[i], test)) ==> every_step(
            action,
            test,
        ),
        forall|i: int|
            0 <= i < items.len() && !every_step(#[trigger] items[i], test) ==> !every_step(
                action,
                test,
            ),
        forall|i: int|
            0 <= i < items.len() && any_step(#[trigger] items[i], test) ==> any_step(action, test),
{
    assert forall|i: int| 0 <= i < items.len() && any_step(#[trigger] items[i], test) implies any_step(
        action,
        test,
    ) by {
        assert(steps(action)[i] == items[i]);
    }
}

} // verus!
