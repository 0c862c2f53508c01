//! What the daemon's events mean for the island.

use vstd::prelude::*;

use crate::json::{field, number_field, text_field, Json, JsonView};
use crate::text::{decimal, decimal_of, opt_text, same};
use crate::ui_state::{EventView, UiMode, VoiceUiEvent};

verus! {

/// The number of an event, if it has one and it is new.
pub open spec fn new_number(event: JsonView, last: u64) -> Option<u64> {
    match number_field(event, "sequence"@) {
        Some(sequence) => if sequence > last {
            Some(sequence)
        } else {
            None
        },
        None => None,
    }
}

/// A text in the data of an event.
pub open spec fn data_text(event: JsonView, key: Seq<char>) -> Option<Seq<char>> {
    match field(event, "data"@) {
        Some(data) => text_field(data, key),
        None => None,
    }
}

/// A number in the data of an event.
pub open spec fn data_number(event: JsonView, key: Seq<char>) -> Option<u64> {
    match field(event, "data"@) {
        Some(data) => number_field(data, key),
        None => None,
    }
}

/// A number in the data of an event that fits sixteen bits.
pub open spec fn data_place(event: JsonView, key: Seq<char>) -> Option<u16> {
    match data_number(event, key) {
        Some(n) => if n <= u16::MAX {
            Some(n as u16)
        } else {
            None
        },
        None => None,
    }
}

pub open spec fn is_kind(event: JsonView, kind: Seq<char>) -> bool {
    text_field(event, "kind"@) == Some(kind)
}

/// An order to open or close the island.
pub open spec fn island_order(event: JsonView) -> Option<EventView> {
    if !is_kind(event, "ui_island"@) {
        None
    } else if data_text(event, "state"@) == Some("expanded"@) {
        Some(EventView::SetExpanded(true))
    } else if data_text(event, "state"@) == Some("collapsed"@) {
        Some(EventView::SetExpanded(false))
    } else if data_text(event, "state"@) == Some("toggle"@) {
        Some(EventView::ToggleExpanded)
    } else {
        None
    }
}

/// A change of the mode.
pub open spec fn mode_change(event: JsonView) -> Option<EventView> {
    if !is_kind(event, "ui_mode"@) {
        None
    } else if data_text(event, "mode"@) == Some("headful"@) {
        Some(EventView::UiMode { mode: UiMode::Headful, source: data_text(event, "source"@) })
    } else if data_text(event, "mode"@) == Some("headless"@) {
        Some(EventView::UiMode { mode: UiMode::Headless, source: data_text(event, "source"@) })
    } else {
        None
    }
}

/// A step of another agent.
pub open spec fn step_taken(event: JsonView) -> Option<EventView> {
    match data_text(event, "label"@) {
        Some(label) => if is_kind(event, "ui_step"@) && data_text(event, "source"@) != Some(
            "voice"@,
        ) {
            Some(
                EventView::AgentStep {
                    label,
                    source: data_text(event, "source"@),
                    task: data_text(event, "task"@),
                    tool: data_text(event, "tool"@),
                    step_index: data_place(event, "step_index"@),
                    step_total: data_place(event, "step_total"@),
                    ttl_ms: data_number(event, "ttl_ms"@),
                },
            )
        } else {
            None
        },
        None => None,
    }
}

/// A reply of another agent.
pub open spec fn reply_given(event: JsonView) -> Option<EventView> {
    match data_text(event, "text"@) {
        Some(text) => if is_kind(event, "ui_reply"@) && data_text(event, "source"@) != Some(
            "voice"@,
        ) {
            Some(EventView::AutomationReply(text))
        } else {
            None
        },
        None => None,
    }
}

/// The start of a stream of frames.
pub open spec fn stream_started(event: JsonView) -> Option<EventView> {
    if is_kind(event, "visual_session_started"@) {
        let fps = match data_number(event, "fps"@) {
            Some(fps) => fps,
            None => 10,
        };
        Some(
            EventView::AgentStep {
                label: "Streaming desktop frames at "@ + decimal(fps as nat) + " fps"@,
                source: Some("remote"@),
                task: Some("Computer control"@),
                tool: Some("Unix socket"@),
                step_index: Some(1),
                step_total: Some(2),
                ttl_ms: Some(5_000),
            },
        )
    } else {
        None
    }
}

pub open spec fn activity(label: Seq<char>) -> EventView {
    EventView::AutomationActivity {
        label,
        source: Some("Computer control"@),
        tool: Some("Unix socket"@),
    }
}

/// Input from elsewhere.
pub open spec fn input_seen(event: JsonView) -> Option<EventView> {
    if is_kind(event, "input_started"@) {
        Some(
            activity(
                match data_text(event, "label"@) {
                    Some(label) => label,
                    None => "remote action started"@,
                },
            ),
        )
    } else if is_kind(event, "input_completed"@) {
        Some(activity("confirmed remote action"@))
    } else if is_kind(event, "input_refused"@) {
        Some(EventView::Error("Remote action refused"@))
    } else {
        None
    }
}

/// What an event of the daemon means for the island.
pub open spec fn meaning(event: JsonView) -> Option<EventView> {
    if step_taken(event) is Some {
        step_taken(event)
    } else if reply_given(event) is Some {
        reply_given(event)
    } else if mode_change(event) is Some {
        mode_change(event)
    } else if island_order(event) is Some {
        island_order(event)
    } else if stream_started(event) is Some {
        stream_started(event)
    } else {
        input_seen(event)
    }
}

/// What an event means, with its number, if it is new.
pub open spec fn numbered(event: JsonView, last: u64, shown: Option<EventView>) -> Option<
    (u64, EventView),
> {
    match (new_number(event, last), shown) {
        (Some(sequence), Some(shown)) => Some((sequence, shown)),
        _ => None,
    }
}

pub open spec fn opt_event(event: Option<(u64, VoiceUiEvent)>) -> Option<(u64, EventView)> {
    match event {
        Some((sequence, event)) => Some((sequence, event@)),
        None => None,
    }
}

fn daemon_event_sequence(event: &Json) -> (sequence: Option<u64>)
    ensures
        sequence == number_field(event@, "sequence"@),
{
    event.get_number("sequence")
}

fn fresh_sequence(event: &Json, last_sequence: u64) -> (sequence: Option<u64>)
    ensures
        sequence == new_number(event@, last_sequence),
{
    match daemon_event_sequence(event) {
        Some(sequence) => if sequence > last_sequence {
            Some(sequence)
        } else {
            None
        },
        None => None,
    }
}

fn text_in(event: &Json, key: &str) -> (text: Option<String>)
    ensures
        opt_text(text) == data_text(event@, key@),
{
    match event.get("data") {
        Some(data) => match data.get_text(key) {
            Some(text) => Some(text.clone()),
            None => None,
        },
        None => None,
    }
}

fn number_in(event: &Json, key: &str) -> (number: Option<u64>)
    ensures
        number == data_number(event@, key@),
{
    match event.get("data") {
        Some(data) => data.get_number(key),
        None => None,
    }
}

fn place_in(event: &Json, key: &str) -> (place: Option<u16>)
    ensures
        place == data_place(event@, key@),
{
    match number_in(event, key) {
        Some(n) => if n <= u16::MAX as u64 {
            Some(n as u16)
        } else {
            None
        },
        None => None,
    }
}

fn is_voice(source: &Option<String>) -> (found: bool)
    ensures
        found == (opt_text(*source) == Some("voice"@)),
{
    match source {
        Some(source) => same(source.as_str(), "voice"),
        None => false,
    }
}

/// An order to open or close the island.
pub fn agent_island_from_daemon_event(event: &Json, last_sequence: u64) -> (shown: Option<
    (u64, VoiceUiEvent),
>)
    ensures
        opt_event(shown) == numbered(event@, last_sequence, island_order(event@)),
{
    let Some(sequence) = fresh_sequence(event, last_sequence) else {
        return None;
    };
    if !event.text_is("kind", "ui_island") {
        return None;
    }
    let Some(state) = text_in(event, "state") else {
        return None;
    };
    if same(state.as_str(), "expanded") {
        Some((sequence, VoiceUiEvent::SetExpanded(true)))
    } else if same(state.as_str(), "collapsed") {
        Some((sequence, VoiceUiEvent::SetExpanded(false)))
    } else if same(state.as_str(), "toggle") {
        Some((sequence, VoiceUiEvent::ToggleExpanded))
    } else {
        None
    }
}

/// A change of the mode.
pub fn agent_mode_from_daemon_event(event: &Json, last_sequence: u64) -> (shown: Option<
    (u64, VoiceUiEvent),
>)
    ensures
        opt_event(shown) == numbered(event@, last_sequence, mode_change(event@)),
{
    let Some(sequence) = fresh_sequence(event, last_sequence) else {
        return None;
    };
    if !event.text_is("kind", "ui_mode") {
        return None;
    }
    let Some(mode) = text_in(event, "mode") else {
        return None;
    };
    let source = text_in(event, "source");
    if same(mode.as_str(), "headful") {
        Some((sequence, VoiceUiEvent::UiMode { mode: UiMode::Headful, source }))
    } else if same(mode.as_str(), "headless") {
        Some((sequence, VoiceUiEvent::UiMode { mode: UiMode::Headless, source }))
    } else {
        None
    }
}

/// A step of another agent. The steps of a voice turn are shown already.
pub fn agent_step_from_daemon_event(event: &Json, last_sequence: u64) -> (shown: Option<
    (u64, VoiceUiEvent),
>)
    ensures
        opt_event(shown) == numbered(event@, last_sequence, step_taken(event@)),
{
    let Some(sequence) = fresh_sequence(event, last_sequence) else {
        return None;
    };
    if !event.text_is("kind", "ui_step") {
        return None;
    }
    let Some(label) = text_in(event, "label") else {
        return None;
    };
    let source = text_in(event, "source");
    if is_voice(&source) {
        return None;
    }
    Some(
        (
            sequence,
            VoiceUiEvent::AgentStep {
                label,
                source,
                task: text_in(event, "task"),
                tool: text_in(event, "tool"),
                step_index: place_in(event, "step_index"),
                step_total: place_in(event, "step_total"),
                ttl_ms: number_in(event, "ttl_ms"),
            },
        ),
    )
}

/// A reply of another agent. The reply of a voice turn is shown already.
pub fn agent_reply_from_daemon_event(event: &Json, last_sequence: u64) -> (shown: Option<
    (u64, VoiceUiEvent),
>)
    ensures
        opt_event(shown) == numbered(event@, last_sequence, reply_given(event@)),
{
    let Some(sequence) = fresh_sequence(event, last_sequence) else {
        return None;
    };
    if !event.text_is("kind", "ui_reply") {
        return None;
    }
    let Some(text) = text_in(event, "text") else {
        return None;
    };
    let source = text_in(event, "source");
    if is_voice(&source) {
        return None;
    }
    Some((sequence, VoiceUiEvent::AutomationReply(text)))
}

/// The start of a stream of frames.
pub fn agent_visual_session_from_daemon_event(event: &Json, last_sequence: u64) -> (shown: Option<
    (u64, VoiceUiEvent),
>)
    ensures
        opt_event(shown) == numbered(event@, last_sequence, stream_started(event@)),
{
    let Some(sequence) = fresh_sequence(event, last_sequence) else {
        return None;
    };
    if !event.text_is("kind", "visual_session_started") {
        return None;
    }
    let fps: u64 = match number_in(event, "fps") {
        Some(fps) => fps,
        None => 10,
    };
    let mut label = "Streaming desktop frames at ".to_owned();
    label.append(decimal_of(fps).as_str());
    label.append(" fps");
    Some(
        (
            sequence,
            VoiceUiEvent::AgentStep {
                label,
                source: Some("remote".to_owned()),
                task: Some("Computer control".to_owned()),
                tool: Some("Unix socket".to_owned()),
                step_index: Some(1),
                step_total: Some(2),
                ttl_ms: Some(5_000),
            },
        ),
    )
}

fn activity_event(label: String) -> (event: VoiceUiEvent)
    ensures
        event@ == activity(label@),
{
    VoiceUiEvent::AutomationActivity {
        label,
        source: Some("Computer control".to_owned()),
        tool: Some("Unix socket".to_owned()),
    }
}

proof fn lemma_input_kinds()
    ensures
        "input_started"@ != "input_completed"@,
        "input_started"@ != "input_refused"@,
        "input_completed"@ != "input_refused"@,
{
    reveal_strlit("input_started");
    reveal_strlit("input_completed");
    reveal_strlit("input_refused");
    assert("input_started"@.len() == 13 && "input_started"@[6] == 's');
    assert("input_completed"@.len() == 15);
    assert("input_refused"@.len() == 13 && "input_refused"@[6] == 'r');
}

/// Input from elsewhere.
pub fn agent_input_from_daemon_event(event: &Json, last_sequence: u64) -> (shown: Option<
    (u64, VoiceUiEvent),
>)
    ensures
        opt_event(shown) == numbered(event@, last_sequence, input_seen(event@)),
{
    proof {
        lemma_input_kinds();
    }
    let Some(sequence) = fresh_sequence(event, last_sequence) else {
        return None;
    };
    if event.text_is("kind", "input_started") {
        let label = match text_in(event, "label") {
            Some(label) => label,
            None => "remote action started".to_owned(),
        };
        Some((sequence, activity_event(label)))
    } else if event.text_is("kind", "input_completed") {
        Some((sequence, activity_event("confirmed remote action".to_owned())))
    } else if event.text_is("kind", "input_refused") {
        Some((sequence, VoiceUiEvent::Error("Remote action refused".to_owned())))
    } else {
        None
    }
}

/// What an event of the daemon means for the island, with its number.
pub fn agent_ui_event_from_daemon_event(event: &Json, last_sequence: u64) -> (shown: Option<
    (u64, VoiceUiEvent),
>)
    ensures
        opt_event(shown) == numbered(event@, last_sequence, meaning(event@)),
{
    let step = agent_step_from_daemon_event(event, last_sequence);
    if step.is_some() {
        return step;
    }
    let reply = agent_reply_from_daemon_event(event, last_sequence);
    if reply.is_some() {
        return reply;
    }
    let mode = agent_mode_from_daemon_event(event, last_sequence);
    if mode.is_some() {
        return mode;
    }
    let island = agent_island_from_daemon_event(event, last_sequence);
    if island.is_some() {
        return island;
    }
    let stream = agent_visual_session_from_daemon_event(event, last_sequence);
    if stream.is_some() {
        return stream;
    }
    agent_input_from_daemon_event(event, last_sequence)
}

/// The number of the last event seen, after another one.
pub open spec fn advanced(last: u64, event: JsonView) -> u64 {
    match number_field(event, "sequence"@) {
        Some(sequence) => if sequence > last {
            sequence
        } else {
            last
        },
        None => last,
    }
}

/// What an event of the daemon means for the island. The event counts as seen
/// from then on, whatever it means.
pub fn agent_ui_event_from_daemon_event_advancing_cursor(
    event: &Json,
    last_sequence: &mut u64,
) -> (shown: Option<VoiceUiEvent>)
    ensures
        *final(last_sequence) == advanced(*old(last_sequence), event@),
        match shown {
            Some(shown) => new_number(event@, *old(last_sequence)) is Some && meaning(event@)
                == Some(shown@),
            None => new_number(event@, *old(last_sequence)) is None || meaning(event@) is None,
        },
{
    let previous_sequence = *last_sequence;
    if let Some(sequence) = daemon_event_sequence(event) {
        if sequence > previous_sequence {
            *last_sequence = sequence;
        }
    }
    match agent_ui_event_from_daemon_event(event, previous_sequence) {
        Some((_, shown)) => Some(shown),
        None => None,
    }
}

/// The number of the last event seen, after a list of them.
pub open spec fn advanced_by_all(last: u64, events: Seq<JsonView>) -> u64
    decreases events.len(),
{
    if events.len() == 0 {
        last
    } else {
        advanced(advanced_by_all(last, events.drop_last()), events.last())
    }
}

/// The highest number among the events; zero, if none has a number.
pub fn max_daemon_event_sequence(events: &Vec<Json>) -> (sequence: u64)
    ensures
        sequence == advanced_by_all(0, crate::json::views(events@)),
{
    let ghost all = crate::json::views(events@);
    let mut last: u64 = 0;
    let mut i: usize = 0;
    while i < events.len()
        invariant
            i <= events@.len(),
            all == crate::json::views(events@),
            last == advanced_by_all(0, all.take(i as int)),
        decreases events@.len() - i,
    {
        assert(all.take(i + 1).drop_last() =~= all.take(i as int));
        assert(all.take(i + 1).last() == events@[i as int]@);
        if let Some(sequence) = daemon_event_sequence(&events[i]) {
            if sequence > last {
                last = sequence;
            }
        }
        i = i + 1;
    }
    assert(all.take(all.len() as int) =~= all);
    last
}

/// The number of the last event seen never goes back, and an event that has
/// been seen is not shown again.
pub proof fn lemma_event_is_shown_once(event: JsonView, last: u64, later: u64)
    requires
        later >= advanced(last, event),
    ensures
        advanced(last, event) >= last,
        numbered(event, later, meaning(event)) is None,
{
}

/// No event of a list is shown once the list has been taken up.
pub proof fn lemma_snapshot_is_not_shown(events: Seq<JsonView>, last: u64, i: int)
    requires
        0 <= i < events.len(),
    ensures
        numbered(events[i], advanced_by_all(last, events), meaning(events[i])) is None,
        advanced_by_all(last, events) >= advanced_by_all(last, events.drop_last()),
    decreases events.len(),
{
    if i < events.len() - 1 {
        let rest = events.drop_last();
        assert(rest[i] == events[i]);
        lemma_snapshot_is_not_shown(rest, last, i);
    }
}

/// What a voice turn tells the daemon comes back to the island neither as a
/// step nor as a reply.
pub proof fn lemma_voice_is_not_echoed(event: JsonView)
    requires
        data_text(event, "source"@) == Some("voice"@),
        is_kind(event, "ui_step"@) || is_kind(event, "ui_reply"@),
    ensures
        meaning(event) is None,
{
    lemma_event_kinds();
}

proof fn lemma_event_kinds()
    ensures
        forall|kind: Seq<char>|
            (#[trigger] starts_ui(kind)) ==> kind != "ui_mode"@ && kind != "ui_island"@ && kind
                != "visual_session_started"@ && kind != "input_started"@ && kind
                != "input_completed"@ && kind != "input_refused"@,
        starts_ui("ui_step"@),
        starts_ui("ui_reply"@),
{
    reveal_strlit("ui_step");
    reveal_strlit("ui_reply");
    reveal_strlit("ui_mode");
    reveal_strlit("ui_island");
    reveal_strlit("visual_session_started");
    reveal_strlit("input_started");
    reveal_strlit("input_completed");
    reveal_strlit("input_refused");
    assert("ui_step"@.len() == 7 && "ui_step"@[3] == 's');
    assert("ui_mode"@.len() == 7 && "ui_mode"@[3] == 'm');
    assert("ui_reply"@.len() == 8);
    assert("ui_island"@.len() == 9);
    assert("visual_session_started"@.len() == 22);
    assert("input_started"@.len() == 13);
    assert("input_completed"@.len() == 15);
    assert("input_refused"@.len() == 13);
}

spec fn starts_ui(kind: Seq<char>) -> bool {
    kind == "ui_step"@ || kind == "ui_reply"@
}

/// The number that was reached is the largest of those seen: none that came is
/// above it, and it is the one from before or one that came.
pub proof fn lemma_cursor_is_the_largest(last: u64, events: Seq<JsonView>, i: int)
    ensures
        advanced_by_all(last, events) >= last,
        0 <= i < events.len() ==> (number_field(events[i], "sequence"@) matches Some(n)
            ==> advanced_by_all(last, events) >= n),
        advanced_by_all(last, events) == last || exists|k: int|
            0 <= k < events.len() && number_field(#[trigger] events[k], "sequence"@) == Some(
                advanced_by_all(last, events),
            ),
    decreases events.len(),
{
    if events.len() > 0 {
        let earlier = events.drop_last();
        lemma_cursor_is_the_largest(last, earlier, i);
        if i < earlier.len() && 0 <= i {
            assert(earlier[i] == events[i]);
        }
        let reached = advanced_by_all(last, events);
        if reached != last {
            if reached == advanced_by_all(last, earlier) {
                let k = choose|k: int|
                    0 <= k < earlier.len() && number_field(#[trigger] earlier[k], "sequence"@)
                        == Some(reached);
                assert(events[k] == earlier[k]);
            } else {
                assert(number_field(events[events.len() - 1], "sequence"@) == Some(reached));
            }
        }
    }
}

/// Events one after another move the number on as if they came together.
pub proof fn lemma_cursor_moves_on(last: u64, a: Seq<JsonView>, b: Seq<JsonView>)
    ensures
        advanced_by_all(last, a + b) == advanced_by_all(advanced_by_all(last, a), b),
    decreases b.len(),
{
    if b.len() == 0 {
        assert(a + b =~= a);
    } else {
        lemma_cursor_moves_on(last, a, b.drop_last());
        assert((a + b).drop_last() =~= a + b.drop_last());
        assert((a + b).last() == b.last());
    }
}

/// An event is taken up exactly if it has a number above the last one and means
/// something.
pub proof fn lemma_only_new_events_count(event: JsonView, last: u64, shown: EventView, n: u64)
    ensures
        number_field(event, "sequence"@) == Some(n) && n > last ==> numbered(
            event,
            last,
            Some(shown),
        ) == Some((n, shown)),
        number_field(event, "sequence"@) == Some(n) && n <= last ==> numbered(
            event,
            last,
            Some(shown),
        ) is None,
        number_field(event, "sequence"@) is None ==> numbered(event, last, Some(shown)) is None,
        numbered(event, last, None) is None,
{
}

/// A step that another source reports is shown with all that is known of it, and
/// a reply with its text.
pub proof fn lemma_reported_step_is_shown(event: JsonView, data: JsonView, text: Seq<char>)
    requires
        field(event, "data"@) == Some(data),
        text_field(data, "source"@) != Some("voice"@),
    ensures
        text_field(event, "kind"@) == Some("ui_step"@) && text_field(data, "label"@) == Some(text)
            ==> (meaning(event) matches Some(
            EventView::AgentStep { label, source, task, tool, step_index, step_total, ttl_ms },
        ) && label == text && source == text_field(data, "source"@) && task == text_field(
            data,
            "task"@,
        ) && tool == text_field(data, "tool"@) && ttl_ms == number_field(data, "ttl_ms"@) && (
        number_field(data, "step_index"@) matches Some(n) ==> (n <= 65_535 ==> step_index == Some(
            n as u16,
        ))) && (number_field(data, "step_total"@) matches Some(n) ==> (n <= 65_535 ==> step_total
            == Some(n as u16)))),
        text_field(event, "kind"@) == Some("ui_reply"@) && text_field(data, "text"@) == Some(text)
            ==> meaning(event) == Some(EventView::AutomationReply(text)),
{
    lemma_event_kinds_differ();
}

proof fn lemma_event_kinds_differ()
    ensures
        "ui_step"@ != "ui_reply"@,
        "ui_step"@ != "ui_mode"@,
        "ui_step"@ != "ui_island"@,
        "ui_reply"@ != "ui_mode"@,
        "ui_reply"@ != "ui_island"@,
        "ui_mode"@ != "ui_island"@,
        "ui_island"@ != "visual_session_started"@,
        "ui_mode"@ != "visual_session_started"@,
        "visual_session_started"@ != "input_started"@,
        "input_started"@ != "input_completed"@,
        "input_started"@ != "input_refused"@,
        "input_completed"@ != "input_refused"@,
        "expanded"@ != "collapsed"@,
        "expanded"@ != "toggle"@,
        "collapsed"@ != "toggle"@,
        "headful"@ != "headless"@,
        "ui_step"@ != "visual_session_started"@,
        "ui_step"@ != "input_started"@,
        "ui_step"@ != "input_completed"@,
        "ui_step"@ != "input_refused"@,
        "ui_reply"@ != "visual_session_started"@,
        "ui_reply"@ != "input_started"@,
        "ui_reply"@ != "input_completed"@,
        "ui_reply"@ != "input_refused"@,
        "ui_mode"@ != "input_started"@,
        "ui_mode"@ != "input_completed"@,
        "ui_mode"@ != "input_refused"@,
        "ui_island"@ != "input_started"@,
        "ui_island"@ != "input_completed"@,
        "ui_island"@ != "input_refused"@,
        "visual_session_started"@ != "input_completed"@,
        "visual_session_started"@ != "input_refused"@,
{
    reveal_strlit("ui_step");
    reveal_strlit("ui_reply");
    reveal_strlit("ui_mode");
    reveal_strlit("ui_island");
    reveal_strlit("visual_session_started");
    reveal_strlit("input_started");
    reveal_strlit("input_completed");
    reveal_strlit("input_refused");
    reveal_strlit("expanded");
    reveal_strlit("collapsed");
    reveal_strlit("toggle");
    reveal_strlit("headful");
    reveal_strlit("headless");
    assert("ui_step"@[3] != "ui_mode"@[3]);
    assert("ui_step"@.len() == 7 && "ui_reply"@.len() == 8 && "ui_mode"@.len() == 7
        && "ui_island"@.len() == 9);
    assert("visual_session_started"@.len() == 22 && "input_started"@.len() == 13
        && "input_completed"@.len() == 15 && "input_refused"@.len() == 13);
    assert("input_started"@[6] != "input_refused"@[6]);
    assert("expanded"@.len() == 8 && "collapsed"@.len() == 9 && "toggle"@.len() == 6);
    assert("headful"@.len() == 7 && "headless"@.len() == 8);
}

/// The island is opened, closed or turned over as the daemon orders, and the mode
/// is the one that it names; an order that is not known does nothing.
pub proof fn lemma_orders_are_followed(event: JsonView, data: JsonView, word: Seq<char>)
    requires
        field(event, "data"@) == Some(data),
    ensures
        text_field(event, "kind"@) == Some("ui_island"@) && text_field(data, "state"@) == Some(word)
            ==> ({
            &&& word == "expanded"@ ==> meaning(event) == Some(EventView::SetExpanded(true))
            &&& word == "collapsed"@ ==> meaning(event) == Some(EventView::SetExpanded(false))
            &&& word == "toggle"@ ==> meaning(event) == Some(EventView::ToggleExpanded)
            &&& word != "expanded"@ && word != "collapsed"@ && word != "toggle"@ ==> meaning(event)
                is None
        }),
        text_field(event, "kind"@) == Some("ui_mode"@) && text_field(data, "mode"@) == Some(word)
            ==> ({
            let source = text_field(data, "source"@);
            &&& word == "headful"@ ==> meaning(event) == Some(
                EventView::UiMode { mode: UiMode::Headful, source },
            )
            &&& word == "headless"@ ==> meaning(event) == Some(
                EventView::UiMode { mode: UiMode::Headless, source },
            )
            &&& word != "headful"@ && word != "headless"@ ==> meaning(event) is None
        }),
{
    lemma_event_kinds_differ();
}

/// Remote input is shown while it runs and when it is done, under its own label
/// where it has one; a refusal is shown as an error. Other kinds of events show
/// nothing.
pub proof fn lemma_remote_input_is_shown(event: JsonView, label: Seq<char>)
    ensures
        text_field(event, "kind"@) == Some("input_started"@) && data_text(event, "label"@) == Some(
            label,
        ) ==> (meaning(event) matches Some(EventView::AutomationActivity { label: shown, .. })
            && shown == label),
        text_field(event, "kind"@) == Some("input_completed"@) ==> (meaning(event) matches Some(
            EventView::AutomationActivity { .. },
        )),
        text_field(event, "kind"@) == Some("input_refused"@) ==> (meaning(event) matches Some(
            EventView::Error(_),
        )),
        text_field(event, "kind"@) == Some("visual_session_started"@) ==> (meaning(event) matches Some(
            EventView::AgentStep { .. },
        )),
        ({
            let kind = text_field(event, "kind"@);
            kind != Some("ui_step"@) && kind != Some("ui_reply"@) && kind != Some("ui_mode"@) && kind
                != Some("ui_island"@) && kind != Some("visual_session_started"@) && kind != Some(
                "input_started"@,
            ) && kind != Some("input_completed"@) && kind != Some("input_refused"@)
        }) ==> meaning(event) is None,
{
    lemma_event_kinds_differ();
}

/// The start of a stream tells its rate, or ten frames a second where none is
/// given.
pub proof fn lemma_stream_tells_its_rate(event: JsonView, fps: u64)
    requires
        is_kind(event, "visual_session_started"@),
    ensures
        data_number(event, "fps"@) == Some(fps) ==> (stream_started(
            event,
        ) matches Some(EventView::AgentStep { label, .. }) && label
            == "Streaming desktop frames at "@ + decimal(fps as nat) + " fps"@),
        data_number(event, "fps"@) is None ==> (stream_started(
            event,
        ) matches Some(EventView::AgentStep { label, .. }) && label
            == "Streaming desktop frames at "@ + decimal(10) + " fps"@),
        stream_started(event) matches Some(EventView::AgentStep { source, task, tool, .. }) && source
            == Some("remote"@) && task == Some("Computer control"@) && tool == Some("Unix socket"@),
{
}

/// A reply of another agent is shown, and one of the assistant's own is not shown
/// again.
pub proof fn lemma_own_reply_is_not_shown_again(event: JsonView, text: Seq<char>)
    ensures
        data_text(event, "source"@) == Some("voice"@) ==> reply_given(event) is None,
        is_kind(event, "ui_reply"@) && data_text(event, "text"@) == Some(text) && data_text(
            event,
            "source"@,
        ) != Some("voice"@) ==> reply_given(event) == Some(EventView::AutomationReply(text)),
        data_text(event, "text"@) is None ==> reply_given(event) is None,
        !is_kind(event, "ui_reply"@) ==> reply_given(event) is None,
{
}

} // verus!
