//! Plans, and what is done to them before they are carried out: repeated
//! actions go, new notes are really created, and actions get the settings of
//! the profile.

use vstd::prelude::*;

use crate::action::{
    action_views, any_part, every_part, has_only_parts, has_part, lemma_sequence_view, opt_action,
    ActionView, InputAction, PartTest,
};
use crate::text::{
    alphanumeric, chars_of, decimal, decimal_of, is_alnum, lower, opt_text, same, starts_with, texts,
    to_lower, trim, trimmed,
};
use crate::transcript::{
    has_word, transcript_mentions_notes, transcript_requests_new_note, wants_new_note,
};

verus! {

/// What the planner wants to say and do.
#[derive(Debug)]
pub struct PlannedTurn {
    pub response: String,
    pub action: Option<InputAction>,
}

/// What a plan means.
#[verifier::ext_equal]
pub struct PlanView {
    pub response: Seq<char>,
    pub action: Option<ActionView>,
}

impl View for PlannedTurn {
    type V = PlanView;

    open spec fn view(&self) -> PlanView {
        PlanView { response: self.response@, action: opt_action(self.action) }
    }
}

/// The meaning of an optional plan.
pub open spec fn opt_plan(plan: Option<PlannedTurn>) -> Option<PlanView> {
    match plan {
        Some(plan) => Some(plan@),
        None => None,
    }
}

/// Whether every action goes to Aegis.
pub fn input_action_uses_only_aegis_backend(action: &InputAction) -> (found: bool)
    ensures
        found == every_part(action@, PartTest::Aegis),
{
    has_only_parts(action, PartTest::Aegis)
}

/// Whether the action does nothing but open applications.
pub fn input_action_is_open_only_setup(action: &InputAction) -> (found: bool)
    ensures
        found == every_part(action@, PartTest::OpenApp),
{
    has_only_parts(action, PartTest::OpenApp)
}

/// Whether the action puts text somewhere.
pub fn action_satisfies_text_entry_request(action: &InputAction) -> (found: bool)
    ensures
        found == any_part(action@, PartTest::EntersText),
{
    has_part(action, PartTest::EntersText)
}

/// Whether the action presses the key combination for a new document.
pub fn action_contains_cmd_n(action: &InputAction) -> (found: bool)
    ensures
        found == any_part(action@, PartTest::NewDocument),
{
    has_part(action, PartTest::NewDocument)
}

/// Whether the action holds a shell command that can fail observably, or repair
/// something.
pub fn action_attempts_failure_or_recovery_boundary_work(action: &InputAction) -> (found: bool)
    ensures
        found == any_part(action@, PartTest::FailureOrRecovery),
{
    has_part(action, PartTest::FailureOrRecovery)
}

/// What makes a second action of its kind pointless.
pub enum EffectKey {
    OpenApp(Seq<char>),
    KeyType(Seq<char>),
    KeyPaste(Seq<char>),
    ClipboardWrite(Seq<char>),
}

/// The application that is opened, or the text that is entered and how; other
/// actions may be repeated.
pub open spec fn effect_key(action: ActionView) -> Option<EffectKey> {
    match action {
        ActionView::OpenApp { app_name } => Some(EffectKey::OpenApp(lower(trimmed(app_name)))),
        ActionView::KeyType { text } => Some(EffectKey::KeyType(trimmed(text))),
        ActionView::KeyPaste { text } => Some(EffectKey::KeyPaste(trimmed(text))),
        ActionView::ClipboardWrite { text } => Some(EffectKey::ClipboardWrite(trimmed(text))),
        _ => None,
    }
}

/// The action does what one of the actions has done.
pub open spec fn is_redundant(actions: Seq<ActionView>, action: ActionView) -> bool {
    effect_key(action) is Some && exists|i: int|
        0 <= i < actions.len() && effect_key(#[trigger] actions[i]) == effect_key(action)
}

/// The actions without those that do what an earlier one has done.
pub open spec fn without_redundant(actions: Seq<ActionView>) -> Seq<ActionView>
    decreases actions.len(),
{
    if actions.len() == 0 {
        actions
    } else {
        let earlier = without_redundant(actions.drop_last());
        if is_redundant(actions.drop_last(), actions.last()) {
            earlier
        } else {
            earlier.push(actions.last())
        }
    }
}

/// An action in whose sequences nothing is done twice.
pub open spec fn deduped(action: ActionView) -> ActionView
    decreases action,
{
    match action {
        ActionView::Sequence { actions, inter_action_delay_ms } => ActionView::Sequence {
            actions: without_redundant(each_deduped(actions)),
            inter_action_delay_ms,
        },
        _ => action,
    }
}

/// Each of the actions, with nothing done twice in its sequences.
pub open spec fn each_deduped(actions: Seq<ActionView>) -> Seq<ActionView>
    decreases actions,
{
    if actions.len() == 0 {
        Seq::empty()
    } else {
        each_deduped(actions.subrange(0, actions.len() - 1)).push(
            deduped(actions[actions.len() - 1]),
        )
    }
}

/// How many actions go because they do what an earlier one has done.
pub open spec fn removed(action: ActionView) -> nat
    decreases action,
{
    match action {
        ActionView::Sequence { actions, .. } => removed_below(actions) + (actions.len()
            - without_redundant(each_deduped(actions)).len()) as nat,
        _ => 0,
    }
}

/// How many actions go within the actions.
pub open spec fn removed_below(actions: Seq<ActionView>) -> nat
    decreases actions,
{
    if actions.len() == 0 {
        0
    } else {
        removed_below(actions.subrange(0, actions.len() - 1)) + removed(actions[actions.len() - 1])
    }
}

proof fn lemma_each_deduped(actions: Seq<ActionView>)
    ensures
        each_deduped(actions).len() == actions.len(),
        forall|i: int|
            0 <= i < actions.len() ==> #[trigger] each_deduped(actions)[i] == deduped(actions[i]),
    decreases actions.len(),
{
    if actions.len() > 0 {
        lemma_each_deduped(actions.subrange(0, actions.len() - 1));
    }
}

/// What stays is no more than what was there.
proof fn lemma_without_redundant_len(actions: Seq<ActionView>)
    ensures
        without_redundant(actions).len() <= actions.len(),
    decreases actions.len(),
{
    if actions.len() > 0 {
        lemma_without_redundant_len(actions.drop_last());
    }
}

/// What stays is among what was there, and covers all its effects.
proof fn lemma_without_redundant_keys(actions: Seq<ActionView>)
    ensures
        forall|i: int|
            0 <= i < without_redundant(actions).len() ==> exists|j: int|
                0 <= j < actions.len() && #[trigger] actions[j] == #[trigger] without_redundant(
                    actions,
                )[i],
        forall|j: int|
            0 <= j < actions.len() && effect_key(#[trigger] actions[j]) is Some ==> exists|i: int|
                0 <= i < without_redundant(actions).len() && effect_key(
                    #[trigger] without_redundant(actions)[i],
                ) == effect_key(actions[j]),
    decreases actions.len(),
{
    if actions.len() > 0 {
        let earlier = actions.drop_last();
        let kept = without_redundant(earlier);
        let whole = without_redundant(actions);
        lemma_without_redundant_keys(earlier);
        assert forall|i: int| 0 <= i < whole.len() implies exists|j: int|
            0 <= j < actions.len() && #[trigger] actions[j] == #[trigger] whole[i] by {
            if i < kept.len() {
                assert(whole[i] == kept[i]);
                let j = choose|j: int|
                    0 <= j < earlier.len() && #[trigger] earlier[j] == #[trigger] kept[i];
                assert(actions[j] == earlier[j]);
            } else {
                assert(whole[i] == actions[actions.len() - 1]);
            }
        }
        assert forall|j: int|
            0 <= j < actions.len() && effect_key(#[trigger] actions[j]) is Some implies exists|
            i: int,
        |
            0 <= i < whole.len() && effect_key(#[trigger] whole[i]) == effect_key(actions[j]) by {
            if j < earlier.len() {
                assert(earlier[j] == actions[j]);
                let i = choose|i: int|
                    0 <= i < kept.len() && effect_key(#[trigger] kept[i]) == effect_key(earlier[j]);
                assert(whole[i] == kept[i]);
            } else if is_redundant(earlier, actions.last()) {
                let m = choose|m: int|
                    0 <= m < earlier.len() && effect_key(#[trigger] earlier[m]) == effect_key(
                        actions.last(),
                    );
                let i = choose|i: int|
                    0 <= i < kept.len() && effect_key(#[trigger] kept[i]) == effect_key(earlier[m]);
                assert(whole[i] == kept[i]);
            } else {
                assert(whole[whole.len() - 1] == actions[j]);
            }
        }
    }
}

/// Among what stays, no action does what an earlier one has done.
pub open spec fn has_no_redundant(actions: Seq<ActionView>) -> bool {
    forall|i: int, j: int|
        0 <= i < j < actions.len() && effect_key(#[trigger] actions[j]) is Some ==> effect_key(
            #[trigger] actions[i],
        ) != effect_key(actions[j])
}

/// Once repeated actions are gone, none is left.
pub proof fn lemma_without_redundant_is_clean(actions: Seq<ActionView>)
    ensures
        has_no_redundant(without_redundant(actions)),
    decreases actions.len(),
{
    if actions.len() > 0 {
        let earlier = actions.drop_last();
        let kept = without_redundant(earlier);
        lemma_without_redundant_is_clean(earlier);
        lemma_without_redundant_keys(earlier);
        if !is_redundant(earlier, actions.last()) {
            let whole = without_redundant(actions);
            assert(whole == kept.push(actions.last()));
            assert forall|i: int, j: int|
                0 <= i < j < whole.len() && effect_key(
                    #[trigger] whole[j],
                ) is Some implies effect_key(#[trigger] whole[i]) != effect_key(whole[j]) by {
                assert(whole[i] == kept[i]);
                if j < kept.len() {
                    assert(whole[j] == kept[j]);
                } else {
                    let m = choose|m: int|
                        0 <= m < earlier.len() && #[trigger] earlier[m] == #[trigger] kept[i];
                    assert(effect_key(earlier[m]) != effect_key(actions.last()));
                }
            }
        }
    }
}

/// A list without repeated actions stays as it is.
proof fn lemma_clean_stays(actions: Seq<ActionView>)
    requires
        has_no_redundant(actions),
    ensures
        without_redundant(actions) == actions,
    decreases actions.len(),
{
    if actions.len() > 0 {
        let earlier = actions.drop_last();
        assert(has_no_redundant(earlier)) by {
            assert forall|i: int, j: int|
                0 <= i < j < earlier.len() && effect_key(
                    #[trigger] earlier[j],
                ) is Some implies effect_key(#[trigger] earlier[i]) != effect_key(earlier[j]) by {
                assert(earlier[i] == actions[i]);
                assert(earlier[j] == actions[j]);
            }
        }
        lemma_clean_stays(earlier);
        assert(!is_redundant(earlier, actions.last())) by {
            if is_redundant(earlier, actions.last()) {
                let m = choose|m: int|
                    0 <= m < earlier.len() && effect_key(#[trigger] earlier[m]) == effect_key(
                        actions.last(),
                    );
                assert(earlier[m] == actions[m]);
                assert(actions[actions.len() - 1] == actions.last());
            }
        }
        assert(earlier.push(actions.last()) =~= actions);
    }
}

/// How many actions go within the actions, where none goes in each of them.
proof fn lemma_nothing_removed_below(actions: Seq<ActionView>)
    requires
        forall|i: int| 0 <= i < actions.len() ==> removed(#[trigger] actions[i]) == 0,
    ensures
        removed_below(actions) == 0,
    decreases actions.len(),
{
    if actions.len() > 0 {
        lemma_nothing_removed_below(actions.subrange(0, actions.len() - 1));
    }
}

/// To remove repeated actions twice is to remove them once: the second time none
/// goes.
pub proof fn lemma_dedupe_is_idempotent(action: ActionView)
    ensures
        deduped(deduped(action)) == deduped(action),
        removed(deduped(action)) == 0,
    decreases action,
{
    if let ActionView::Sequence { actions, inter_action_delay_ms } = action {
        let each = each_deduped(actions);
        let kept = without_redundant(each);
        lemma_each_deduped(actions);
        lemma_each_deduped(kept);
        lemma_without_redundant_keys(each);
        lemma_without_redundant_is_clean(each);
        assert forall|i: int| 0 <= i < kept.len() implies #[trigger] each_deduped(kept)[i]
            == kept[i] by {
            let j = choose|j: int| 0 <= j < each.len() && #[trigger] each[j] == #[trigger] kept[i];
            assert(each[j] == deduped(actions[j]));
            lemma_dedupe_is_idempotent(actions[j]);
        }
        assert(each_deduped(kept) =~= kept);
        lemma_clean_stays(kept);
        assert forall|i: int| 0 <= i < kept.len() implies removed(#[trigger] kept[i]) == 0 by {
            let j = choose|j: int| 0 <= j < each.len() && #[trigger] each[j] == #[trigger] kept[i];
            assert(each[j] == deduped(actions[j]));
            lemma_dedupe_is_idempotent(actions[j]);
        }
        lemma_nothing_removed_below(kept);
    }
}

/// How many actions were removed.
#[derive(Clone, Copy, Debug, PartialEq, Eq, Structural)]
pub struct ActionDedupeReport {
    pub removed: usize,
}

/// In what way an action puts a text to use.
#[derive(Clone, Copy, Debug, PartialEq, Eq, Structural)]
pub enum ActionTextKind {
    OpenApp,
    Type,
    Paste,
    Clipboard,
}

pub open spec fn key_of(kind: ActionTextKind, text: Seq<char>) -> EffectKey {
    match kind {
        ActionTextKind::OpenApp => EffectKey::OpenApp(text),
        ActionTextKind::Type => EffectKey::KeyType(text),
        ActionTextKind::Paste => EffectKey::KeyPaste(text),
        ActionTextKind::Clipboard => EffectKey::ClipboardWrite(text),
    }
}

fn key_for(action: &InputAction) -> (key: Option<(ActionTextKind, String)>)
    ensures
        match key {
            Some((kind, text)) => effect_key(action@) == Some(key_of(kind, text@)),
            None => effect_key(action@) is None,
        },
{
    match action {
        InputAction::OpenApp { app_name } => Some(
            (ActionTextKind::OpenApp, to_lower(trim(app_name.as_str()).as_str())),
        ),
        InputAction::KeyType { text } => Some((ActionTextKind::Type, trim(text.as_str()))),
        InputAction::KeyPaste { text } => Some((ActionTextKind::Paste, trim(text.as_str()))),
        InputAction::ClipboardWrite { text } => Some(
            (ActionTextKind::Clipboard, trim(text.as_str())),
        ),
        _ => None,
    }
}

pub open spec fn has_key(
    seen: Seq<(ActionTextKind, String)>,
    kind: ActionTextKind,
    text: Seq<char>,
) -> bool {
    exists|i: int| 0 <= i < seen.len() && (#[trigger] seen[i]).0 == kind && seen[i].1@ == text
}

/// Notes the effect; says whether it was met for the first time.
pub fn retain_first_text_entry(
    seen: &mut Vec<(ActionTextKind, String)>,
    kind: ActionTextKind,
    text: String,
) -> (first: bool)
    ensures
        first == !has_key(old(seen)@, kind, text@),
        final(seen)@ == (if first {
            old(seen)@.push((kind, text))
        } else {
            old(seen)@
        }),
{
    let mut i: usize = 0;
    while i < seen.len()
        invariant
            i <= seen@.len(),
            seen@ == old(seen)@,
            forall|j: int|
                0 <= j < i ==> !((#[trigger] seen@[j]).0 == kind && seen@[j].1@ == text@),
        decreases seen@.len() - i,
    {
        if seen[i].0 == kind && same(seen[i].1.as_str(), text.as_str()) {
            return false;
        }
        i = i + 1;
    }
    seen.push((kind, text));
    true
}

/// An action without what is done twice in its sequences, and how much went.
fn dedupe(action: &InputAction) -> (result: (InputAction, usize))
    ensures
        result.0@ == deduped(action@),
        result.1 == (if removed(action@) <= usize::MAX {
            removed(action@) as int
        } else {
            usize::MAX as int
        }),
    decreases action,
{
    match action {
        InputAction::Sequence { actions, inter_action_delay_ms } => {
            proof {
                lemma_sequence_view(*actions, *inter_action_delay_ms);
            }
            let ghost steps = action_views(actions@);
            let mut kept: Vec<InputAction> = Vec::new();
            let mut seen: Vec<(ActionTextKind, String)> = Vec::new();
            let mut gone: usize = 0;
            let mut i: usize = 0;
            assert(each_deduped(steps.take(0)) =~= Seq::empty());
            assert(action_views(kept@) =~= without_redundant(each_deduped(steps.take(0))));
            while i < actions.len()
                invariant
                    i <= actions@.len(),
                    steps == action_views(actions@),
                    *action == (InputAction::Sequence {
                        actions: *actions,
                        inter_action_delay_ms: *inter_action_delay_ms,
                    }),
                    action_views(kept@) == without_redundant(each_deduped(steps.take(i as int))),
                    forall|kind: ActionTextKind, text: Seq<char>|
                        has_key(seen@, kind, text) <==> exists|j: int|
                            0 <= j < i && effect_key(
                                #[trigger] each_deduped(steps.take(i as int))[j],
                            ) == Some(key_of(kind, text)),
                    gone == (if removed_below(steps.take(i as int)) + (i - kept@.len())
                        <= usize::MAX {
                        removed_below(steps.take(i as int)) + (i - kept@.len())
                    } else {
                        usize::MAX as int
                    }),
                    kept@.len() <= i,
                decreases actions@.len() - i,
            {
                assert(decreases_to!(action => action->actions));
                assert(decreases_to!(actions => actions[i as int]));
                let (step, below) = dedupe(&actions[i]);
                let ghost before = each_deduped(steps.take(i as int));
                let ghost after = each_deduped(steps.take(i + 1));
                proof {
                    let longer = steps.take(i + 1);
                    assert(longer.subrange(0, longer.len() - 1) =~= steps.take(i as int));
                    assert(longer[longer.len() - 1] == actions@[i as int]@);
                    assert(after == before.push(step@));
                    assert(after.drop_last() =~= before);
                    lemma_each_deduped(steps.take(i as int));
                }
                gone = gone.saturating_add(below);
                let ghost old_seen = seen@;
                let ghost old_kept = kept@;
                let keep = match key_for(&step) {
                    Some((kind, text)) => {
                        assert(has_key(old_seen, kind, text@) == is_redundant(before, step@)) by {
                            if has_key(old_seen, kind, text@) {
                                let j = choose|j: int|
                                    0 <= j < i && effect_key(#[trigger] before[j]) == Some(
                                        key_of(kind, text@),
                                    );
                                assert(effect_key(before[j]) == effect_key(step@));
                            }
                            if is_redundant(before, step@) {
                                let j = choose|j: int|
                                    0 <= j < before.len() && effect_key(#[trigger] before[j])
                                        == effect_key(step@);
                                assert(effect_key(before[j]) == Some(key_of(kind, text@)));
                            }
                        }
                        let first = retain_first_text_entry(&mut seen, kind, text);
                        proof {
                            lemma_keys_grow(old_seen, seen@, kind, text, first, before, step@);
                        }
                        first
                    },
                    None => {
                        proof {
                            lemma_keys_stay(seen@, before, step@);
                        }
                        true
                    },
                };
                if keep {
                    kept.push(step);
                    assert(action_views(kept@) =~= action_views(old_kept).push(step@));
                } else {
                    gone = gone.saturating_add(1);
                }
                assert(action_views(kept@) == without_redundant(after));
                i = i + 1;
            }
            proof {
                assert(steps.take(steps.len() as int) =~= steps);
                lemma_sequence_view(kept, *inter_action_delay_ms);
                assert(action_views(kept@).len() == kept@.len());
            }
            (
                InputAction::Sequence {
                    actions: kept,
                    inter_action_delay_ms: *inter_action_delay_ms,
                },
                gone,
            )
        },
        _ => (action.clone(), 0),
    }
}

proof fn lemma_keys_grow(
    old_seen: Seq<(ActionTextKind, String)>,
    seen: Seq<(ActionTextKind, String)>,
    kind: ActionTextKind,
    text: String,
    first: bool,
    before: Seq<ActionView>,
    step: ActionView,
)
    requires
        forall|k: ActionTextKind, t: Seq<char>|
            has_key(old_seen, k, t) <==> exists|j: int|
                0 <= j < before.len() && effect_key(#[trigger] before[j]) == Some(key_of(k, t)),
        first == !has_key(old_seen, kind, text@),
        seen == (if first {
            old_seen.push((kind, text))
        } else {
            old_seen
        }),
        effect_key(step) == Some(key_of(kind, text@)),
    ensures
        forall|k: ActionTextKind, t: Seq<char>|
            has_key(seen, k, t) <==> exists|j: int|
                0 <= j < before.push(step).len() && effect_key(#[trigger] before.push(step)[j])
                    == Some(key_of(k, t)),
{
    let after = before.push(step);
    assert forall|k: ActionTextKind, t: Seq<char>|
        has_key(seen, k, t) <==> exists|j: int|
            0 <= j < after.len() && effect_key(#[trigger] after[j]) == Some(key_of(k, t)) by {
        if has_key(seen, k, t) {
            if has_key(old_seen, k, t) {
                let j = choose|j: int|
                    0 <= j < before.len() && effect_key(#[trigger] before[j]) == Some(key_of(k, t));
                assert(after[j] == before[j]);
            } else {
                let i = choose|i: int|
                    0 <= i < seen.len() && (#[trigger] seen[i]).0 == k && seen[i].1@ == t;
                if i < old_seen.len() {
                    assert(old_seen[i] == seen[i]);
                }
                assert(after[before.len() as int] == step);
            }
        }
        if exists|j: int|
            0 <= j < after.len() && effect_key(#[trigger] after[j]) == Some(key_of(k, t)) {
            let j = choose|j: int|
                0 <= j < after.len() && effect_key(#[trigger] after[j]) == Some(key_of(k, t));
            if j < before.len() {
                assert(before[j] == after[j]);
                assert(has_key(old_seen, k, t));
                let i = choose|i: int|
                    0 <= i < old_seen.len() && (#[trigger] old_seen[i]).0 == k && old_seen[i].1@
                        == t;
                assert(seen[i] == old_seen[i]);
            } else {
                assert(k == kind && t == text@);
                if first {
                    assert(seen[old_seen.len() as int] == (kind, text));
                }
            }
        }
    }
}

proof fn lemma_keys_stay(
    seen: Seq<(ActionTextKind, String)>,
    before: Seq<ActionView>,
    step: ActionView,
)
    requires
        forall|k: ActionTextKind, t: Seq<char>|
            has_key(seen, k, t) <==> exists|j: int|
                0 <= j < before.len() && effect_key(#[trigger] before[j]) == Some(key_of(k, t)),
        effect_key(step) is None,
    ensures
        forall|k: ActionTextKind, t: Seq<char>|
            has_key(seen, k, t) <==> exists|j: int|
                0 <= j < before.push(step).len() && effect_key(#[trigger] before.push(step)[j])
                    == Some(key_of(k, t)),
{
    let after = before.push(step);
    assert forall|k: ActionTextKind, t: Seq<char>|
        has_key(seen, k, t) <==> exists|j: int|
            0 <= j < after.len() && effect_key(#[trigger] after[j]) == Some(key_of(k, t)) by {
        if has_key(seen, k, t) {
            let j = choose|j: int|
                0 <= j < before.len() && effect_key(#[trigger] before[j]) == Some(key_of(k, t));
            assert(after[j] == before[j]);
        }
        if exists|j: int|
            0 <= j < after.len() && effect_key(#[trigger] after[j]) == Some(key_of(k, t)) {
            let j = choose|j: int|
                0 <= j < after.len() && effect_key(#[trigger] after[j]) == Some(key_of(k, t));
            assert(j < before.len());
            assert(before[j] == after[j]);
        }
    }
}

pub open spec fn opt_deduped(action: Option<ActionView>) -> Option<ActionView> {
    match action {
        Some(action) => Some(deduped(action)),
        None => None,
    }
}

pub open spec fn opt_removed(action: Option<ActionView>) -> nat {
    match action {
        Some(action) => removed(action),
        None => 0,
    }
}

/// Removes from the sequences of a plan what an earlier action has done.
pub fn dedupe_redundant_sequence_actions(action: &mut Option<InputAction>) -> (report:
    ActionDedupeReport)
    ensures
        opt_action(*final(action)) == opt_deduped(opt_action(*old(action))),
        report.removed == (if opt_removed(opt_action(*old(action))) <= usize::MAX {
            opt_removed(opt_action(*old(action))) as int
        } else {
            usize::MAX as int
        }),
{
    match action.take() {
        Some(current) => {
            let (clean, removed) = dedupe(&current);
            *action = Some(clean);
            ActionDedupeReport { removed }
        },
        None => ActionDedupeReport { removed: 0 },
    }
}

/// The first action that types, pastes or copies text.
pub open spec fn first_text(action: ActionView) -> Option<ActionView>
    decreases action,
{
    match action {
        ActionView::KeyType { .. } => Some(action),
        ActionView::KeyPaste { .. } => Some(action),
        ActionView::ClipboardWrite { .. } => Some(action),
        ActionView::Sequence { actions, .. } => first_text_in(actions),
        _ => None,
    }
}

/// The first action that types, pastes or copies text, in a list.
pub open spec fn first_text_in(actions: Seq<ActionView>) -> Option<ActionView>
    decreases actions,
{
    if actions.len() == 0 {
        None
    } else {
        match first_text(actions[0]) {
            Some(found) => Some(found),
            None => first_text_in(actions.subrange(1, actions.len() as int)),
        }
    }
}

/// The first action that types, pastes or copies text.
pub fn first_text_entry_action(action: &InputAction) -> (found: Option<InputAction>)
    ensures
        opt_action(found) == first_text(action@),
    decreases action,
{
    match action {
        InputAction::KeyType { .. } => Some(action.clone()),
        InputAction::KeyPaste { .. } => Some(action.clone()),
        InputAction::ClipboardWrite { .. } => Some(action.clone()),
        InputAction::Sequence { actions, inter_action_delay_ms } => {
            proof {
                lemma_sequence_view(*actions, *inter_action_delay_ms);
            }
            let ghost steps = action_views(actions@);
            let mut i: usize = 0;
            assert(steps.skip(0) =~= steps);
            while i < actions.len()
                invariant
                    i <= actions@.len(),
                    steps == action_views(actions@),
                    *action == (InputAction::Sequence {
                        actions: *actions,
                        inter_action_delay_ms: *inter_action_delay_ms,
                    }),
                    first_text(action@) == first_text_in(steps.skip(i as int)),
                decreases actions@.len() - i,
            {
                assert(decreases_to!(action => action->actions));
                assert(decreases_to!(actions => actions[i as int]));
                let ghost rest = steps.skip(i as int);
                assert(rest[0] == actions@[i as int]@);
                assert(rest.subrange(1, rest.len() as int) =~= steps.skip(i + 1));
                let found = first_text_entry_action(&actions[i]);
                if found.is_some() {
                    return found;
                }
                i = i + 1;
            }
            None
        },
        _ => None,
    }
}

/// The plan that makes a new note with the text of `text_action`.
pub open spec fn new_note_plan(text_action: ActionView) -> ActionView {
    ActionView::Sequence {
        actions: seq![
            ActionView::OpenApp { app_name: "Notes"@ },
            ActionView::KeyPress { combo: "cmd+n"@ },
            text_action,
        ],
        inter_action_delay_ms: 120,
    }
}

/// A plan for a new note opens Notes, makes the note, and enters the text once.
/// Other plans stay as they are.
pub open spec fn repaired(transcript: Seq<char>, action: Option<ActionView>) -> Option<ActionView> {
    match action {
        Some(current) => match first_text(current) {
            Some(text_action) => if wants_new_note(transcript) {
                Some(new_note_plan(text_action))
            } else {
                action
            },
            None => action,
        },
        None => action,
    }
}

/// Makes a plan for a new note open Notes, make the note, and enter the text
/// once.
pub fn repair_new_note_text_entry_plan(transcript: &str, action: &mut Option<InputAction>)
    ensures
        opt_action(*final(action)) == repaired(transcript@, opt_action(*old(action))),
{
    if !transcript_requests_new_note(transcript) {
        return;
    }
    match action.take() {
        None => {},
        Some(current) => match first_text_entry_action(&current) {
            None => {
                *action = Some(current);
            },
            Some(text_action) => {
                if transcript_mentions_notes(transcript) {
                    let ghost text_view = text_action@;
                    let actions = vec![
                        InputAction::OpenApp { app_name: "Notes".to_owned() },
                        InputAction::KeyPress { combo: "cmd+n".to_owned() },
                        text_action,
                    ];
                    proof {
                        lemma_sequence_view(actions, 120);
                        assert(action_views(actions@) =~= new_note_plan(text_view)->actions);
                    }
                    *action = Some(InputAction::Sequence { actions, inter_action_delay_ms: 120 });
                } else if action_contains_cmd_n(&current) {
                    *action = Some(current);
                } else {
                    *action = Some(
                        InputAction::Sequence {
                            actions: vec![
                                InputAction::KeyPress { combo: "cmd+n".to_owned() },
                                text_action,
                            ],
                            inter_action_delay_ms: 120,
                        },
                    );
                }
            },
        },
    }
}

/// A repaired plan enters text exactly as the planner wanted it first.
pub proof fn lemma_repair_keeps_text(transcript: Seq<char>, action: ActionView)
    ensures
        first_text(repaired(transcript, Some(action))->0) == first_text(action),
{
    if wants_new_note(transcript) && first_text(action) is Some {
        let text_action = first_text(action)->0;
        lemma_first_text_is_text(action);
        let plan = new_note_plan(text_action);
        let steps = plan->actions;
        reveal_with_fuel(first_text_in, 4);
        reveal_with_fuel(first_text, 4);
        assert(steps[0] is OpenApp);
        let rest = steps.subrange(1, 3);
        assert(rest[0] is KeyPress);
        let last = rest.subrange(1, 2);
        assert(last[0] == text_action);
    }
}

proof fn lemma_first_text_is_text(action: ActionView)
    ensures
        first_text(action) matches Some(found) ==> first_text(found) == Some(found),
    decreases action,
{
    if let ActionView::Sequence { actions, .. } = action {
        lemma_first_text_in_is_text(actions);
    }
}

proof fn lemma_first_text_in_is_text(actions: Seq<ActionView>)
    ensures
        first_text_in(actions) matches Some(found) ==> first_text(found) == Some(found),
    decreases actions,
{
    if actions.len() > 0 {
        lemma_first_text_is_text(actions[0]);
        lemma_first_text_in_is_text(actions.subrange(1, actions.len() as int));
    }
}

/// The characters that a profile name may have.
pub open spec fn is_name_char(c: char) -> bool {
    is_alnum(c) || c == '-' || c == '_'
}

/// `s` with `replacement` for every character that a profile name may not have.
pub open spec fn sanitized(s: Seq<char>, replacement: char) -> Seq<char> {
    Seq::new(
        s.len(),
        |i: int|
            if is_name_char(s[i]) {
                s[i]
            } else {
                replacement
            },
    )
}

/// `s` with `replacement` for every character that a profile name may not have.
pub fn sanitize(s: &str, replacement: char) -> (result: String)
    ensures
        result@ == sanitized(s@, replacement),
{
    let chars = chars_of(s);
    let mut result = String::new();
    let mut i: usize = 0;
    while i < chars.len()
        invariant
            i <= chars@.len(),
            result@ == sanitized(chars@.take(i as int), replacement),
        decreases chars@.len() - i,
    {
        let c = chars[i];
        let kept = if alphanumeric(c) || c == '-' || c == '_' {
            c
        } else {
            replacement
        };
        result.push(kept);
        assert(result@ =~= sanitized(chars@.take(i + 1), replacement));
        i = i + 1;
    }
    assert(chars@.take(chars@.len() as int) =~= chars@);
    result
}

pub open spec fn aegis_profile(profile: Seq<char>) -> Seq<char> {
    "cua-"@ + sanitized(profile, '-')
}

/// The Aegis profile that belongs to a profile.
pub fn cua_aegis_profile(profile: &str) -> (result: String)
    ensures
        result@ == aegis_profile(profile@),
{
    let mut result = "cua-".to_owned();
    result.append(sanitize(profile, '-').as_str());
    result
}

pub const FNV_OFFSET: u64 = 14_695_981_039_346_656_037;

pub const FNV_PRIME: u64 = 1_099_511_628_211;

/// The 64-bit FNV-1a hash of the bytes.
pub open spec fn fnv(bytes: Seq<u8>) -> u64
    decreases bytes.len(),
{
    if bytes.len() == 0 {
        FNV_OFFSET
    } else {
        (fnv(bytes.drop_last()) ^ (bytes.last() as u64)).wrapping_mul(FNV_PRIME)
    }
}

fn fnv_hash(bytes: &[u8]) -> (hash: u64)
    ensures
        hash == fnv(bytes@),
{
    let mut hash: u64 = FNV_OFFSET;
    let mut i: usize = 0;
    while i < bytes.len()
        invariant
            i <= bytes@.len(),
            hash == fnv(bytes@.take(i as int)),
        decreases bytes@.len() - i,
    {
        assert(bytes@.take(i + 1).drop_last() =~= bytes@.take(i as int));
        hash = hash ^ (bytes[i] as u64);
        hash = hash.wrapping_mul(FNV_PRIME);
        i = i + 1;
    }
    assert(bytes@.take(bytes@.len() as int) =~= bytes@);
    hash
}

/// The port of the Aegis server of a profile.
pub open spec fn aegis_port(profile: Seq<char>) -> nat {
    18_000 + (fnv(vstd::utf8::encode_utf8(profile)) % 20_000) as nat
}

/// The address of the Aegis server: the one that is set, if it is not blank;
/// otherwise a local port that belongs to the profile.
pub open spec fn aegis_addr(profile: Seq<char>, setting: Option<Seq<char>>) -> Seq<char> {
    match setting {
        Some(addr) => if trimmed(addr).len() > 0 {
            trimmed(addr)
        } else {
            "127.0.0.1:"@ + decimal(aegis_port(profile))
        },
        None => "127.0.0.1:"@ + decimal(aegis_port(profile)),
    }
}

/// The address of the Aegis server of a profile.
pub fn cua_aegis_server_addr(profile: &str, setting: &Option<String>) -> (result: String)
    ensures
        result@ == aegis_addr(profile@, opt_text(*setting)),
{
    if let Some(addr) = setting {
        let addr = trim(addr.as_str());
        if !addr.as_str().is_empty() {
            return addr;
        }
    }
    let hash = fnv_hash(profile.as_bytes());
    let port: u64 = 18_000 + hash % 20_000;
    let mut result = "127.0.0.1:".to_owned();
    result.append(decimal_of(port).as_str());
    result
}

/// The port of a profile's Aegis server is one of twenty thousand.
pub proof fn lemma_aegis_port_range(profile: Seq<char>)
    ensures
        18_000 <= aegis_port(profile) < 38_000,
{
}

/// The option is among the arguments.
pub open spec fn has_option(args: Seq<Seq<char>>, option: Seq<char>) -> bool {
    has_word(args, option)
}

/// Whether the option is among the arguments.
pub fn aegis_args_have_option(args: &Vec<String>, option: &str) -> (found: bool)
    ensures
        found == has_option(texts(args@), option@),
{
    crate::transcript::mentions(args, option)
}

/// The arguments with the option and its value before them, unless the option
/// is among them.
pub open spec fn with_option(
    args: Seq<Seq<char>>,
    option: Seq<char>,
    value: Seq<char>,
) -> Seq<Seq<char>> {
    if has_option(args, option) {
        args
    } else {
        seq![option, value] + args
    }
}

fn add_option(args: &Vec<String>, option: &str, value: &str) -> (result: Vec<String>)
    ensures
        texts(result@) == with_option(texts(args@), option@, value@),
{
    let mut result: Vec<String> = Vec::new();
    if !aegis_args_have_option(args, option) {
        result.push(option.to_owned());
        result.push(value.to_owned());
    }
    let ghost front = texts(result@);
    assert(front + texts(args@) =~= with_option(texts(args@), option@, value@));
    let mut i: usize = 0;
    assert(front =~= front + texts(args@).take(0));
    while i < args.len()
        invariant
            i <= args@.len(),
            texts(result@) == front + texts(args@).take(i as int),
        decreases args@.len() - i,
    {
        let ghost before = result@;
        result.push(args[i].clone());
        assert(texts(result@) =~= texts(before).push(args@[i as int]@));
        assert(texts(args@).take(i + 1) =~= texts(args@).take(i as int).push(args@[i as int]@));
        assert(texts(result@) =~= front + texts(args@).take(i + 1));
        i = i + 1;
    }
    assert(texts(args@).take(args@.len() as int) =~= texts(args@));
    result
}

/// The settings of a profile that actions get before they are carried out.
#[derive(Debug)]
pub struct ProfileSettings {
    /// Where ctx keeps its workspace.
    pub workspace_root: String,
    pub aegis_profile: String,
    pub aegis_addr: String,
}

pub struct SettingsView {
    pub workspace_root: Seq<char>,
    pub aegis_profile: Seq<char>,
    pub aegis_addr: Seq<char>,
}

impl View for ProfileSettings {
    type V = SettingsView;

    open spec fn view(&self) -> SettingsView {
        SettingsView {
            workspace_root: self.workspace_root@,
            aegis_profile: self.aegis_profile@,
            aegis_addr: self.aegis_addr@,
        }
    }
}

/// The workspace of ctx: the directory that was found for the profile, or a
/// relative one.
pub open spec fn workspace_of(profile: Seq<char>, directory: Option<Seq<char>>) -> Seq<char> {
    match directory {
        Some(directory) => directory,
        None => ".cua/profiles/"@ + profile + "/ctx"@,
    }
}

/// The workspace of ctx for a profile.
pub fn ctx_workspace_root(profile: &str, directory: &Option<String>) -> (result: String)
    ensures
        result@ == workspace_of(profile@, opt_text(*directory)),
{
    match directory {
        Some(directory) => directory.clone(),
        None => {
            let mut result = ".cua/profiles/".to_owned();
            result.append(profile);
            result.append("/ctx");
            result
        },
    }
}

/// The settings of a profile, from what the environment sets for it.
pub open spec fn settings_of(
    profile: Seq<char>,
    directory: Option<Seq<char>>,
    addr: Option<Seq<char>>,
) -> SettingsView {
    SettingsView {
        workspace_root: workspace_of(profile, directory),
        aegis_profile: aegis_profile(profile),
        aegis_addr: aegis_addr(profile, addr),
    }
}

/// The settings of a profile, from what the environment sets for it.
pub fn profile_settings(
    profile: &str,
    directory: &Option<String>,
    addr: &Option<String>,
) -> (settings: ProfileSettings)
    ensures
        settings@ == settings_of(profile@, opt_text(*directory), opt_text(*addr)),
{
    ProfileSettings {
        workspace_root: ctx_workspace_root(profile, directory),
        aegis_profile: cua_aegis_profile(profile),
        aegis_addr: cua_aegis_server_addr(profile, addr),
    }
}

/// An action with the settings of the profile, wherever it sets none itself.
pub open spec fn stamped(action: ActionView, settings: SettingsView) -> ActionView
    decreases action,
{
    match action {
        ActionView::Ctx { args, workspace_root, timeout_ms } => ActionView::Ctx {
            args,
            workspace_root: match workspace_root {
                Some(root) => Some(root),
                None => Some(settings.workspace_root),
            },
            timeout_ms,
        },
        ActionView::Aegis { args, timeout_ms } => ActionView::Aegis {
            args: with_option(
                with_option(args, "--profile"@, settings.aegis_profile),
                "--server-addr"@,
                settings.aegis_addr,
            ),
            timeout_ms,
        },
        ActionView::Sequence { actions, inter_action_delay_ms } => ActionView::Sequence {
            actions: each_stamped(actions, settings),
            inter_action_delay_ms,
        },
        _ => action,
    }
}

/// Each of the actions with the settings of the profile.
pub open spec fn each_stamped(actions: Seq<ActionView>, settings: SettingsView) -> Seq<ActionView>
    decreases actions,
{
    if actions.len() == 0 {
        Seq::empty()
    } else {
        each_stamped(actions.subrange(0, actions.len() - 1), settings).push(
            stamped(actions[actions.len() - 1], settings),
        )
    }
}

proof fn lemma_each_stamped(actions: Seq<ActionView>, settings: SettingsView)
    ensures
        each_stamped(actions, settings).len() == actions.len(),
        forall|i: int|
            0 <= i < actions.len() ==> #[trigger] each_stamped(actions, settings)[i] == stamped(
                actions[i],
                settings,
            ),
    decreases actions.len(),
{
    if actions.len() > 0 {
        lemma_each_stamped(actions.subrange(0, actions.len() - 1), settings);
    }
}

fn stamp(action: &InputAction, settings: &ProfileSettings) -> (result: InputAction)
    ensures
        result@ == stamped(action@, settings@),
    decreases action,
{
    match action {
        InputAction::Ctx { args, workspace_root, timeout_ms } => {
            let copy = action.clone();
            match copy {
                InputAction::Ctx { args, workspace_root, timeout_ms } => InputAction::Ctx {
                    args,
                    workspace_root: match workspace_root {
                        Some(root) => Some(root),
                        None => Some(settings.workspace_root.clone()),
                    },
                    timeout_ms,
                },
                other => other,
            }
        },
        InputAction::Aegis { args, timeout_ms } => {
            let args = add_option(args, "--profile", settings.aegis_profile.as_str());
            let args = add_option(&args, "--server-addr", settings.aegis_addr.as_str());
            InputAction::Aegis { args, timeout_ms: *timeout_ms }
        },
        InputAction::Sequence { actions, inter_action_delay_ms } => {
            proof {
                lemma_sequence_view(*actions, *inter_action_delay_ms);
            }
            let ghost steps = action_views(actions@);
            let mut list: Vec<InputAction> = Vec::new();
            let mut i: usize = 0;
            assert(action_views(list@) =~= each_stamped(steps.take(0), settings@));
            while i < actions.len()
                invariant
                    i <= actions@.len(),
                    steps == action_views(actions@),
                    *action == (InputAction::Sequence {
                        actions: *actions,
                        inter_action_delay_ms: *inter_action_delay_ms,
                    }),
                    action_views(list@) == each_stamped(steps.take(i as int), settings@),
                decreases actions@.len() - i,
            {
                assert(decreases_to!(action => action->actions));
                assert(decreases_to!(actions => actions[i as int]));
                let step = stamp(&actions[i], settings);
                let ghost before = list@;
                let ghost longer = steps.take(i + 1);
                assert(longer.subrange(0, longer.len() - 1) =~= steps.take(i as int));
                assert(longer[longer.len() - 1] == actions@[i as int]@);
                list.push(step);
                assert(action_views(list@) =~= action_views(before).push(step@));
                i = i + 1;
            }
            proof {
                assert(steps.take(steps.len() as int) =~= steps);
                lemma_sequence_view(list, *inter_action_delay_ms);
            }
            InputAction::Sequence { actions: list, inter_action_delay_ms: *inter_action_delay_ms }
        },
        _ => action.clone(),
    }
}

/// Gives an action the settings of the profile, wherever it sets none itself.
pub fn stamp_action(action: &mut InputAction, settings: &ProfileSettings)
    ensures
        final(action)@ == stamped(old(action)@, settings@),
{
    *action = stamp(action, settings);
}

/// Settings that an action has are kept: to give them twice is to give them
/// once.
pub proof fn lemma_stamp_is_idempotent(action: ActionView, settings: SettingsView)
    ensures
        stamped(stamped(action, settings), settings) == stamped(action, settings),
    decreases action,
{
    match action {
        ActionView::Aegis { args, .. } => {
            let once = with_option(args, "--profile"@, settings.aegis_profile);
            let both = with_option(once, "--server-addr"@, settings.aegis_addr);
            assert(has_option(once, "--profile"@)) by {
                if !has_option(args, "--profile"@) {
                    assert(once[0] == "--profile"@);
                }
            }
            assert(has_option(both, "--profile"@)) by {
                let i = choose|i: int| 0 <= i < once.len() && #[trigger] once[i] == "--profile"@;
                if !has_option(once, "--server-addr"@) {
                    assert(both[i + 2] == once[i]);
                }
            }
            assert(has_option(both, "--server-addr"@)) by {
                if !has_option(once, "--server-addr"@) {
                    assert(both[0] == "--server-addr"@);
                }
            }
        },
        ActionView::Sequence { actions, .. } => {
            let each = each_stamped(actions, settings);
            lemma_each_stamped(actions, settings);
            lemma_each_stamped(each, settings);
            assert forall|i: int| 0 <= i < each.len() implies #[trigger] each_stamped(
                each,
                settings,
            )[i] == each[i] by {
                lemma_stamp_is_idempotent(actions[i], settings);
            }
            assert(each_stamped(each, settings) =~= each);
        },
        _ => {},
    }
}

/// Arguments that name a server and a profile are kept as they are.
pub proof fn lemma_stamp_keeps_explicit_options(
    args: Seq<Seq<char>>,
    timeout_ms: u64,
    settings: SettingsView,
)
    requires
        has_option(args, "--profile"@),
        has_option(args, "--server-addr"@),
    ensures
        stamped(ActionView::Aegis { args, timeout_ms }, settings) == (ActionView::Aegis {
            args,
            timeout_ms,
        }),
{
}

/// The second of two actions does nothing that the first has not done: both open
/// the same application, whatever the case of its name, or both enter the same
/// text in the same way. Blanks around the name or the text do not count.
pub open spec fn does_the_same(first: ActionView, second: ActionView) -> bool {
    match (first, second) {
        (ActionView::OpenApp { app_name: a }, ActionView::OpenApp { app_name: b }) => lower(
            trimmed(a),
        ) == lower(trimmed(b)),
        (ActionView::KeyType { text: a }, ActionView::KeyType { text: b }) => trimmed(a)
            == trimmed(b),
        (ActionView::KeyPaste { text: a }, ActionView::KeyPaste { text: b }) => trimmed(a)
            == trimmed(b),
        (ActionView::ClipboardWrite { text: a }, ActionView::ClipboardWrite { text: b }) => trimmed(
            a,
        ) == trimmed(b),
        _ => false,
    }
}

/// The actions that a sequence lists; for another action none.
pub open spec fn listed(action: ActionView) -> Seq<ActionView> {
    match action {
        ActionView::Sequence { actions, .. } => actions,
        _ => Seq::empty(),
    }
}

/// An action at the end of a sequence is removed exactly if one before it does
/// the same; else it stays behind those that stay, a sequence without what is
/// repeated in it. All other actions are left as they are.
pub proof fn lemma_only_repeated_actions_go(
    actions: Seq<ActionView>,
    next: ActionView,
    delay: u64,
)
    ensures
        ({
            let before = deduped(
                ActionView::Sequence { actions, inter_action_delay_ms: delay },
            );
            let after = deduped(
                ActionView::Sequence { actions: actions.push(next), inter_action_delay_ms: delay },
            );
            let repeated = exists|i: int|
                0 <= i < actions.len() && does_the_same(#[trigger] actions[i], next);
            &&& before is Sequence && after is Sequence
            &&& after->inter_action_delay_ms == delay
            &&& repeated ==> listed(after) == listed(before)
            &&& !repeated ==> listed(after) == listed(before).push(deduped(next))
        }),
        next is Sequence || deduped(next) == next,
        listed(
            deduped(
                ActionView::Sequence { actions: Seq::empty(), inter_action_delay_ms: delay },
            ),
        ) == Seq::<ActionView>::empty(),
{
    let longer = actions.push(next);
    let each = each_deduped(actions);
    assert(longer.subrange(0, longer.len() - 1) =~= actions);
    lemma_each_deduped(actions);
    assert(each_deduped(longer) == each.push(deduped(next)));
    assert(each.push(deduped(next)).drop_last() =~= each);
    let repeated = exists|i: int|
        0 <= i < actions.len() && does_the_same(#[trigger] actions[i], next);
    if repeated {
        let i = choose|i: int|
            0 <= i < actions.len() && does_the_same(#[trigger] actions[i], next);
        assert(each[i] == deduped(actions[i]));
        assert(effect_key(each[i]) == effect_key(next));
        assert(is_redundant(each, deduped(next)));
    } else {
        assert forall|i: int| 0 <= i < each.len() && effect_key(next) is Some implies effect_key(
            #[trigger] each[i],
        ) != effect_key(next) by {
            assert(each[i] == deduped(actions[i]));
            assert(!does_the_same(actions[i], next));
        }
        assert(!is_redundant(each, deduped(next)));
    }
    let none = Seq::<ActionView>::empty();
    assert(each_deduped(none) =~= none);
    assert(without_redundant(none) =~= none);
}

/// An action that no action before it in its sequence has done stays: text that
/// is new is entered.
pub proof fn lemma_new_action_stays(actions: Seq<ActionView>, delay: u64, k: int)
    requires
        0 <= k < actions.len(),
        forall|i: int| 0 <= i < k ==> !does_the_same(#[trigger] actions[i], actions[k]),
    ensures
        listed(
            deduped(ActionView::Sequence { actions, inter_action_delay_ms: delay }),
        ).contains(deduped(actions[k])),
    decreases actions.len(),
{
    let earlier = actions.drop_last();
    let whole = ActionView::Sequence { actions, inter_action_delay_ms: delay };
    let shorter = ActionView::Sequence { actions: earlier, inter_action_delay_ms: delay };
    let kept = listed(deduped(shorter));
    assert(earlier.push(actions.last()) =~= actions);
    lemma_only_repeated_actions_go(earlier, actions.last(), delay);
    if k < earlier.len() {
        assert(earlier[k] == actions[k]);
        assert forall|i: int| 0 <= i < k implies !does_the_same(
            #[trigger] earlier[i],
            earlier[k],
        ) by {
            assert(earlier[i] == actions[i]);
        }
        lemma_new_action_stays(earlier, delay, k);
        let i = choose|i: int| 0 <= i < kept.len() && kept[i] == deduped(actions[k]);
        assert(listed(deduped(whole))[i] == kept[i]);
    } else {
        assert forall|i: int| 0 <= i < earlier.len() implies !does_the_same(
            #[trigger] earlier[i],
            actions.last(),
        ) by {
            assert(earlier[i] == actions[i]);
        }
        assert(listed(deduped(whole)) == kept.push(deduped(actions.last())));
        assert(listed(deduped(whole))[kept.len() as int] == deduped(actions[k]));
    }
}

/// How many actions stand in the sequences of an action.
pub open spec fn parts_within(action: ActionView) -> nat
    decreases action,
{
    match action {
        ActionView::Sequence { actions, .. } => parts_within_each(actions) + actions.len(),
        _ => 0,
    }
}

/// How many actions stand in the sequences of the actions.
pub open spec fn parts_within_each(actions: Seq<ActionView>) -> nat
    decreases actions,
{
    if actions.len() == 0 {
        0
    } else {
        parts_within_each(actions.subrange(0, actions.len() - 1)) + parts_within(
            actions[actions.len() - 1],
        )
    }
}

proof fn lemma_parts_of_the_kept(actions: Seq<ActionView>)
    ensures
        parts_within_each(without_redundant(actions)) == parts_within_each(actions),
    decreases actions.len(),
{
    if actions.len() > 0 {
        let earlier = actions.drop_last();
        let kept = without_redundant(earlier);
        lemma_parts_of_the_kept(earlier);
        assert(actions.subrange(0, actions.len() - 1) =~= earlier);
        assert(parts_within_each(actions) == parts_within_each(earlier) + parts_within(
            actions.last(),
        ));
        if is_redundant(earlier, actions.last()) {
            assert(effect_key(actions.last()) is Some);
            assert(parts_within(actions.last()) == 0);
        } else {
            let whole = kept.push(actions.last());
            assert(whole.subrange(0, whole.len() - 1) =~= kept);
        }
    }
}

/// The actions that stay and the number of those that were removed make up the
/// actions that were there.
pub proof fn lemma_removed_are_counted(action: ActionView)
    ensures
        parts_within(deduped(action)) + removed(action) == parts_within(action),
    decreases action, 0nat,
{
    if let ActionView::Sequence { actions, .. } = action {
        lemma_removed_below_are_counted(actions);
        lemma_each_deduped(actions);
        lemma_without_redundant_len(each_deduped(actions));
        lemma_parts_of_the_kept(each_deduped(actions));
    }
}

proof fn lemma_removed_below_are_counted(actions: Seq<ActionView>)
    ensures
        parts_within_each(each_deduped(actions)) + removed_below(actions) == parts_within_each(
            actions,
        ),
    decreases actions, 1nat,
{
    if actions.len() > 0 {
        let earlier = actions.subrange(0, actions.len() - 1);
        let last = actions[actions.len() - 1];
        lemma_removed_below_are_counted(earlier);
        lemma_removed_are_counted(last);
        let whole = each_deduped(earlier).push(deduped(last));
        assert(each_deduped(actions) == whole);
        assert(whole.subrange(0, whole.len() - 1) =~= each_deduped(earlier));
    }
}

/// The text of a plan is the first that is entered, however deep it stands:
/// typed, pasted or copied.
pub proof fn lemma_first_text_comes_first(
    text: Seq<char>,
    first: ActionView,
    rest: Seq<ActionView>,
    delay: u64,
)
    ensures
        first_text(ActionView::KeyType { text }) == Some(ActionView::KeyType { text }),
        first_text(ActionView::KeyPaste { text }) == Some(ActionView::KeyPaste { text }),
        first_text(ActionView::ClipboardWrite { text }) == Some(
            ActionView::ClipboardWrite { text },
        ),
        !(first is KeyType || first is KeyPaste || first is ClipboardWrite || first is Sequence)
            ==> first_text(first) is None,
        first_text(
            ActionView::Sequence { actions: Seq::empty(), inter_action_delay_ms: delay },
        ) is None,
        first_text(first) is Some ==> first_text(
            ActionView::Sequence { actions: seq![first] + rest, inter_action_delay_ms: delay },
        ) == first_text(first),
        first_text(first) is None ==> first_text(
            ActionView::Sequence { actions: seq![first] + rest, inter_action_delay_ms: delay },
        ) == first_text(ActionView::Sequence { actions: rest, inter_action_delay_ms: delay }),
{
    let whole = seq![first] + rest;
    assert(whole.subrange(1, whole.len() as int) =~= rest);
    assert(whole[0] == first);
}

/// A request for a new note with text in it opens Notes, presses the combination
/// for a new note and then enters the text; without such a request, or without
/// text, the plan stays as it is.
pub proof fn lemma_new_note_is_created_first(transcript: Seq<char>, action: ActionView)
    ensures
        wants_new_note(transcript) && first_text(action) is Some ==> ({
            let steps = listed(repaired(transcript, Some(action))->Some_0);
            &&& steps.len() == 3
            &&& steps[0] == (ActionView::OpenApp { app_name: "Notes"@ })
            &&& steps[1] == (ActionView::KeyPress { combo: "cmd+n"@ })
            &&& Some(steps[2]) == first_text(action)
        }),
        !wants_new_note(transcript) || first_text(action) is None ==> repaired(
            transcript,
            Some(action),
        ) == Some(action),
        repaired(transcript, None) is None,
{
}

/// Of a name only letters, digits, hyphens and underscores are kept, each at its
/// place; every other character gives way to the replacement.
pub proof fn lemma_names_are_plain(s: Seq<char>, replacement: char, i: int)
    requires
        0 <= i < s.len(),
    ensures
        sanitized(s, replacement).len() == s.len(),
        'a' <= s[i] <= 'z' || 'A' <= s[i] <= 'Z' || '0' <= s[i] <= '9' || s[i] == '-' || s[i] == '_'
            ==> sanitized(s, replacement)[i] == s[i],
        !('a' <= s[i] <= 'z' || 'A' <= s[i] <= 'Z' || '0' <= s[i] <= '9' || s[i] == '-' || s[i]
            == '_') ==> sanitized(s, replacement)[i] == replacement,
{
}

/// An address that is set is taken as it is, without the blanks around it; a
/// blank one counts as none, and the address of a profile is one of this machine.
pub proof fn lemma_set_address_is_taken(profile: Seq<char>, other: Seq<char>, setting: Seq<char>)
    ensures
        trimmed(setting).len() > 0 ==> aegis_addr(profile, Some(setting)) == trimmed(setting),
        trimmed(setting).len() == 0 ==> aegis_addr(profile, Some(setting)) == aegis_addr(
            profile,
            None,
        ),
        starts_with(aegis_addr(profile, None), "127.0.0.1:"@),
        starts_with(aegis_profile(profile), "cua-"@),
{
    assert(aegis_addr(profile, None).subrange(0, "127.0.0.1:"@.len() as int) =~= "127.0.0.1:"@);
    assert(aegis_profile(profile).subrange(0, "cua-"@.len() as int) =~= "cua-"@);
}

/// The settings of the profile go to every action that has none of its own,
/// however deep it stands, and nothing else of a plan changes: what was set stays,
/// and the arguments stay behind the options that come before them.
pub proof fn lemma_settings_reach_every_action(
    actions: Seq<ActionView>,
    i: int,
    delay: u64,
    args: Seq<Seq<char>>,
    root: Option<Seq<char>>,
    timeout_ms: u64,
    settings: SettingsView,
)
    ensures
        0 <= i < actions.len() ==> ({
            let after = stamped(
                ActionView::Sequence { actions, inter_action_delay_ms: delay },
                settings,
            );
            &&& after is Sequence && after->inter_action_delay_ms == delay
            &&& listed(after).len() == actions.len()
            &&& listed(after)[i] == stamped(actions[i], settings)
            &&& actions[i] is Sequence || actions[i] is Aegis || actions[i] is Ctx
                || stamped(actions[i], settings) == actions[i]
        }),
        stamped(ActionView::Ctx { args, workspace_root: root, timeout_ms }, settings) == (
        ActionView::Ctx {
            args,
            workspace_root: if root is Some {
                root
            } else {
                Some(settings.workspace_root)
            },
            timeout_ms,
        }),
        ({
            let after = stamped(ActionView::Aegis { args, timeout_ms }, settings);
            &&& after is Aegis && after->Aegis_timeout_ms == timeout_ms
            &&& after->Aegis_args.len() >= args.len()
            &&& after->Aegis_args.skip(after->Aegis_args.len() - args.len()) == args
        }),
{
    if 0 <= i < actions.len() {
        lemma_each_stamped(actions, settings);
    }
    let first = with_option(args, "--profile"@, settings.aegis_profile);
    let both = with_option(first, "--server-addr"@, settings.aegis_addr);
    assert(first.skip(first.len() - args.len()) =~= args);
    assert(both.skip(both.len() - first.len()) =~= first);
    assert(both.skip(both.len() - args.len()) =~= first.skip(first.len() - args.len()));
}

/// At a place of the arguments an option stands, and its value behind it.
pub open spec fn is_option(
    args: Seq<Seq<char>>,
    at: int,
    option: Seq<char>,
    value: Seq<char>,
) -> bool {
    0 <= at && at + 1 < args.len() && args[at] == option && args[at + 1] == value
}

/// An Aegis action without an option gets it with the value of the profile.
pub proof fn lemma_missing_options_are_added(
    args: Seq<Seq<char>>,
    timeout_ms: u64,
    settings: SettingsView,
)
    requires
        settings.aegis_profile != "--server-addr"@,
    ensures
        ({
            let after = stamped(ActionView::Aegis { args, timeout_ms }, settings)->Aegis_args;
            &&& !args.contains("--profile"@) ==> exists|i: int| #[trigger]
                is_option(after, i, "--profile"@, settings.aegis_profile)
            &&& !args.contains("--server-addr"@) ==> exists|i: int| #[trigger]
                is_option(after, i, "--server-addr"@, settings.aegis_addr)
        }),
{
    reveal_strlit("--profile");
    reveal_strlit("--server-addr");
    assert("--profile"@.len() == 9);
    assert("--server-addr"@.len() == 13);
    let first = with_option(args, "--profile"@, settings.aegis_profile);
    let both = with_option(first, "--server-addr"@, settings.aegis_addr);
    assert(stamped(ActionView::Aegis { args, timeout_ms }, settings)->Aegis_args == both);
    if !args.contains("--profile"@) {
        assert(!has_option(args, "--profile"@));
        assert(first[0] == "--profile"@ && first[1] == settings.aegis_profile);
        if has_option(first, "--server-addr"@) {
            assert(is_option(both, 0, "--profile"@, settings.aegis_profile));
        } else {
            assert(is_option(both, 2, "--profile"@, settings.aegis_profile));
        }
    }
    if !args.contains("--server-addr"@) {
        assert forall|i: int| 0 <= i < first.len() implies #[trigger] first[i]
            != "--server-addr"@ by {
            if first.len() > args.len() {
                if i >= 2 {
                    assert(first[i] == args[i - 2]);
                }
            } else {
                assert(first[i] == args[i]);
            }
        }
        assert(!has_option(first, "--server-addr"@));
        assert(is_option(both, 0, "--server-addr"@, settings.aegis_addr));
    }
}

/// A plan without action stays one, and nothing is removed from it; a plan with
/// an action keeps one.
pub proof fn lemma_action_is_kept(action: ActionView)
    ensures
        opt_deduped(None) is None,
        opt_removed(None) == 0,
        opt_deduped(Some(action)) == Some(deduped(action)),
        opt_removed(Some(action)) == removed(action),
{
}

} // verus!
