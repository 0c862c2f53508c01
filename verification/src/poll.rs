//! Waiting for the daemon's events.
//!
//! Instants are in nanoseconds of a clock that does not go back.

use vstd::prelude::*;

use crate::agent_events::{
    advanced_by_all, agent_reply_from_daemon_event, agent_step_from_daemon_event, numbered,
    reply_given, step_taken,
};
use crate::inbox::{inbound_message_from_daemon_event, message_in, InboundHudMessage, MessageView};
use crate::json::{field, number_field, text_field, views, Json, JsonView};
use crate::text::{concat, opt_text, same};
use crate::time::{elapsed_between, from_millis, millis, span, NANOS_PER_MILLI};
use crate::ui_state::{EventView, VoiceUiEvent};

verus! {

/// What is waited for.
#[derive(Clone, Copy, Debug, PartialEq, Eq, Structural)]
pub enum DaemonUiEventKind {
    Step,
    Reply,
}

/// A wait for one event of another agent.
#[derive(Clone, Copy, Debug, PartialEq, Eq, Structural)]
pub struct EventWait {
    pub kind: DaemonUiEventKind,
    pub started: u128,
    pub timeout_ms: u64,
    pub after_sequence: u64,
    pub last_sequence: u64,
}

/// A time within the bounds of a wait.
pub open spec fn bounded_wait(wait_ms: u64) -> u64 {
    if wait_ms < 25 {
        25
    } else if wait_ms > 30_000 {
        30_000
    } else {
        wait_ms
    }
}

/// What an event means to the wait.
pub open spec fn awaited(kind: DaemonUiEventKind, event: JsonView, after: u64) -> Option<
    (u64, EventView),
> {
    match kind {
        DaemonUiEventKind::Step => numbered(event, after, step_taken(event)),
        DaemonUiEventKind::Reply => numbered(event, after, reply_given(event)),
    }
}

/// The first of the events that is waited for.
pub open spec fn first_awaited(kind: DaemonUiEventKind, events: Seq<JsonView>, after: u64) -> Option<
    EventView,
>
    decreases events.len(),
{
    if events.len() == 0 {
        None
    } else {
        match awaited(kind, events[0], after) {
            Some((_, event)) => Some(event),
            None => first_awaited(kind, events.skip(1), after),
        }
    }
}

/// How many of the events are taken up: those up to the first that is waited
/// for, or all of them.
pub open spec fn taken_up(kind: DaemonUiEventKind, events: Seq<JsonView>, after: u64) -> nat
    decreases events.len(),
{
    if events.len() == 0 {
        0
    } else if awaited(kind, events[0], after) is Some {
        1
    } else {
        1 + taken_up(kind, events.skip(1), after)
    }
}

pub open spec fn opt_shown(event: Option<VoiceUiEvent>) -> Option<EventView> {
    match event {
        Some(event) => Some(event@),
        None => None,
    }
}

impl EventWait {
    /// A wait for an event after the one of that number.
    pub fn new(kind: DaemonUiEventKind, after_sequence: u64, wait_ms: u64, now: u128) -> (wait:
        EventWait)
        ensures
            wait == (EventWait {
                kind,
                started: now,
                timeout_ms: bounded_wait(wait_ms),
                after_sequence,
                last_sequence: after_sequence,
            }),
    {
        let timeout_ms: u64 = if wait_ms < 25 {
            25
        } else if wait_ms > 30_000 {
            30_000
        } else {
            wait_ms
        };
        EventWait { kind, started: now, timeout_ms, after_sequence, last_sequence: after_sequence }
    }

    /// How long the next request may wait; an error once the time is over.
    pub fn remaining_ms(&self, now: u128) -> (result: Result<u64, String>)
        ensures
            match result {
                Ok(ms) => {
                    let left = millis(self.timeout_ms) - span(self.started, now);
                    let whole = left / NANOS_PER_MILLI as int;
                    left > 0 && ms == (if whole < 25 {
                        25
                    } else {
                        whole
                    })
                },
                Err(message) => span(self.started, now) >= millis(self.timeout_ms)
                    && message@
                    == "timed out waiting for programmed agent step"@,
            },
    {
        let elapsed = elapsed_between(self.started, now);
        let timeout = from_millis(self.timeout_ms);
        if elapsed >= timeout {
            return Err("timed out waiting for programmed agent step".to_owned());
        }
        let left: u128 = (timeout - elapsed) / NANOS_PER_MILLI;
        if left < 25 {
            Ok(25)
        } else {
            Ok(left as u64)
        }
    }

    /// Takes up the events of a request. Gives the first that is waited for.
    pub fn take(&mut self, events: &Vec<Json>) -> (found: Option<VoiceUiEvent>)
        ensures
            opt_shown(found) == first_awaited(
                old(self).kind,
                views(events@),
                old(self).after_sequence,
            ),
            *final(self) == (EventWait {
                last_sequence: advanced_by_all(
                    old(self).last_sequence,
                    views(events@).take(
                        taken_up(old(self).kind, views(events@), old(self).after_sequence) as int,
                    ),
                ),
                ..*old(self)
            }),
    {
        let ghost all = views(events@);
        let ghost before = *self;
        let mut i: usize = 0;
        assert(all.skip(0) =~= all);
        assert(all.take(0).len() == 0);
        while i < events.len()
            invariant
                i <= events@.len(),
                all == views(events@),
                before == *old(self),
                *self == (EventWait {
                    last_sequence: advanced_by_all(before.last_sequence, all.take(i as int)),
                    ..before
                }),
                first_awaited(before.kind, all, before.after_sequence) == first_awaited(
                    before.kind,
                    all.skip(i as int),
                    before.after_sequence,
                ),
                taken_up(before.kind, all, before.after_sequence) == i + taken_up(
                    before.kind,
                    all.skip(i as int),
                    before.after_sequence,
                ),
            decreases events@.len() - i,
        {
            assert(all.skip(i as int)[0] == events@[i as int]@);
            assert(all.skip(i as int).skip(1) =~= all.skip(i + 1));
            assert(all.take(i + 1).drop_last() =~= all.take(i as int));
            assert(all.take(i + 1).last() == events@[i as int]@);
            let event = &events[i];
            if let Some(sequence) = event.get_number("sequence") {
                if sequence > self.last_sequence {
                    self.last_sequence = sequence;
                }
                let mapped = match self.kind {
                    DaemonUiEventKind::Step => agent_step_from_daemon_event(
                        event,
                        self.after_sequence,
                    ),
                    DaemonUiEventKind::Reply => agent_reply_from_daemon_event(
                        event,
                        self.after_sequence,
                    ),
                };
                if let Some((_, shown)) = mapped {
                    return Some(shown);
                }
            }
            i = i + 1;
        }
        assert(all.take(all.len() as int) =~= all);
        None
    }
}

/// A wait is over within half a minute, whatever was asked for.
pub proof fn lemma_wait_is_bounded(wait_ms: u64)
    ensures
        25 <= bounded_wait(wait_ms) <= 30_000,
{
}

/// The messages among the events, in order.
pub open spec fn messages_in(events: Seq<JsonView>) -> Seq<MessageView>
    decreases events.len(),
{
    if events.len() == 0 {
        Seq::empty()
    } else {
        match message_in(events.last()) {
            Some(message) => messages_in(events.drop_last()).push(message),
            None => messages_in(events.drop_last()),
        }
    }
}

pub open spec fn message_views(messages: Seq<InboundHudMessage>) -> Seq<MessageView> {
    Seq::new(messages.len(), |i: int| messages[i]@)
}

/// The messages among the events, in order. All the events count as seen.
pub fn inbox_messages(events: &Vec<Json>, last_sequence: &mut u64) -> (messages: Vec<
    InboundHudMessage,
>)
    ensures
        message_views(messages@) == messages_in(views(events@)),
        *final(last_sequence) == advanced_by_all(*old(last_sequence), views(events@)),
{
    let ghost all = views(events@);
    let mut messages: Vec<InboundHudMessage> = Vec::new();
    let mut i: usize = 0;
    assert(all.take(0).len() == 0);
    assert(message_views(messages@) =~= messages_in(all.take(0)));
    while i < events.len()
        invariant
            i <= events@.len(),
            all == views(events@),
            message_views(messages@) == messages_in(all.take(i as int)),
            *last_sequence == advanced_by_all(*old(last_sequence), all.take(i as int)),
        decreases events@.len() - i,
    {
        assert(all.take(i + 1).drop_last() =~= all.take(i as int));
        assert(all.take(i + 1).last() == events@[i as int]@);
        let event = &events[i];
        if let Some(sequence) = event.get_number("sequence") {
            if sequence > *last_sequence {
                *last_sequence = sequence;
            }
        }
        let ghost before = message_views(messages@);
        if let Some(message) = inbound_message_from_daemon_event(event) {
            messages.push(message);
            assert(message_views(messages@) =~= before.push(message@));
        }
        i = i + 1;
    }
    assert(all.take(all.len() as int) =~= all);
    messages
}

/// Whether a failure to connect is to be told: only if it is not the one that
/// was told last.
pub fn note_connect_error(last_error: &mut Option<String>, error: &str) -> (told: bool)
    ensures
        told == (opt_text(*old(last_error)) != Some(error@)),
        opt_text(*final(last_error)) == Some(error@),
{
    let known = match &*last_error {
        Some(last) => same(last.as_str(), error),
        None => false,
    };
    if !known {
        *last_error = Some(error.to_owned());
    }
    !known
}

/// How a message of the inbox was dealt with.
#[derive(Clone, Debug, PartialEq, Eq)]
pub enum InboxOutcome {
    /// The turn was completed.
    Done(String),
    /// The turn failed.
    Failed(String),
}

/// What the inbox is told of a turn.
pub fn inbox_outcome(result: &Result<(), String>) -> (outcome: InboxOutcome)
    ensures
        match (*result, outcome) {
            (Ok(_), InboxOutcome::Done(note)) => note@ == "completed"@,
            (Err(error), InboxOutcome::Failed(note)) => note@ == error@,
            _ => false,
        },
{
    match result {
        Ok(_) => InboxOutcome::Done("completed".to_owned()),
        Err(error) => InboxOutcome::Failed(error.clone()),
    }
}

/// What is said where the inbox could not be told that a turn runs.
pub fn running_mark_failed(error: &str) -> (message: String)
    ensures
        message@ == "mark inbox message running failed: "@ + error@,
{
    concat("mark inbox message running failed: ", error)
}

/// What is said where the inbox could not be told that a turn is over.
pub fn done_mark_failed(error: &str) -> (message: String)
    ensures
        message@ == "mark inbox message done failed: "@ + error@,
{
    concat("mark inbox message done failed: ", error)
}

/// Of the events that come, the first that is waited for is found, whatever comes
/// before and after it; where none is, nothing is found.
pub proof fn lemma_first_awaited_is_found(
    kind: DaemonUiEventKind,
    events: Seq<JsonView>,
    after: u64,
    k: int,
)
    requires
        forall|i: int|
            0 <= i < events.len() && (k < 0 || i < k) ==> awaited(kind, #[trigger] events[i], after)
                is None,
        k < events.len(),
    ensures
        k < 0 ==> first_awaited(kind, events, after) is None && taken_up(kind, events, after)
            == events.len(),
        k >= 0 ==> (awaited(kind, events[k], after) matches Some((_, shown)) ==> first_awaited(
            kind,
            events,
            after,
        ) == Some(shown) && taken_up(kind, events, after) == k + 1),
    decreases events.len(),
{
    if events.len() > 0 {
        let rest = events.skip(1);
        if k != 0 {
            assert forall|i: int|
                0 <= i < rest.len() && (k < 0 || i < k - 1) implies awaited(
                kind,
                #[trigger] rest[i],
                after,
            ) is None by {
                assert(rest[i] == events[i + 1]);
            }
            assert(awaited(kind, events[0], after) is None);
            if k > 0 {
                assert(rest[k - 1] == events[k]);
                lemma_first_awaited_is_found(kind, rest, after, k - 1);
            } else {
                lemma_first_awaited_is_found(kind, rest, after, k);
            }
        }
    }
}

/// A step is waited for by a wait for steps and a reply by one for replies, if
/// their number is above the one to start from and they do not come from voice.
pub proof fn lemma_awaited_kind(event: JsonView, data: JsonView, after: u64, n: u64, text: Seq<char>)
    requires
        number_field(event, "sequence"@) == Some(n),
        field(event, "data"@) == Some(data),
        text_field(data, "source"@) != Some("voice"@),
    ensures
        text_field(event, "kind"@) == Some("ui_reply"@) && text_field(data, "text"@) == Some(text)
            && n > after ==> awaited(DaemonUiEventKind::Reply, event, after) == Some(
            (n, EventView::AutomationReply(text)),
        ),
        text_field(event, "kind"@) == Some("ui_step"@) && text_field(data, "label"@) == Some(text)
            && n > after ==> (awaited(DaemonUiEventKind::Step, event, after) matches Some(
            (sequence, EventView::AgentStep { label, .. }),
        ) && sequence == n && label == text),
        text_field(event, "kind"@) != Some("ui_reply"@) ==> awaited(
            DaemonUiEventKind::Reply,
            event,
            after,
        ) is None,
        text_field(event, "kind"@) != Some("ui_step"@) ==> awaited(
            DaemonUiEventKind::Step,
            event,
            after,
        ) is None,
        n <= after ==> awaited(DaemonUiEventKind::Reply, event, after) is None && awaited(
            DaemonUiEventKind::Step,
            event,
            after,
        ) is None,
{
}

/// A wait within the bounds is as long as it was asked for.
pub proof fn lemma_wait_is_as_asked(wait_ms: u64)
    ensures
        25 <= wait_ms <= 30_000 ==> bounded_wait(wait_ms) == wait_ms,
        wait_ms < 25 ==> bounded_wait(wait_ms) == 25,
        wait_ms > 30_000 ==> bounded_wait(wait_ms) == 30_000,
{
}

/// The messages among events come in their order, each event with a message gives
/// one, and the others give none.
pub proof fn lemma_messages_come_in_order(a: Seq<JsonView>, b: Seq<JsonView>, event: JsonView)
    ensures
        messages_in(a + b) == messages_in(a) + messages_in(b),
        message_in(event) matches Some(message) ==> messages_in(seq![event]) == seq![message],
        message_in(event) is None ==> messages_in(seq![event]) == Seq::<MessageView>::empty(),
    decreases b.len(),
{
    let one = seq![event];
    assert(one.drop_last() =~= Seq::<JsonView>::empty());
    assert(one.last() == event);
    assert(messages_in(one.drop_last()) =~= Seq::<MessageView>::empty());
    if message_in(event) is Some {
        assert(messages_in(one) =~= seq![message_in(event)->0]);
    }
    if b.len() == 0 {
        assert(a + b =~= a);
        assert(messages_in(a) + messages_in(b) =~= messages_in(a));
    } else {
        lemma_messages_come_in_order(a, b.drop_last(), event);
        assert((a + b).drop_last() =~= a + b.drop_last());
        assert((a + b).last() == b.last());
        assert(messages_in(a + b) =~= messages_in(a) + messages_in(b));
    }
}

} // verus!
