//! Following the daemon's events: what is done next after each thing that
//! comes from outside.
//!
//! Instants are in nanoseconds of a clock that does not go back.

use vstd::prelude::*;

use crate::agent_events::{
    advanced, advanced_by_all, agent_ui_event_from_daemon_event_advancing_cursor,
    lemma_cursor_is_the_largest, lemma_cursor_moves_on, lemma_event_is_shown_once,
    max_daemon_event_sequence, meaning, numbered,
};
use crate::daemon::restart_is_due;
use crate::inbox::{InboundHudMessage, MessageView};
use crate::json::{number_field, views, Json, JsonView};
use crate::poll::{inbox_messages, message_views, messages_in, note_connect_error};
use crate::text::{concat, opt_text};
use crate::time::span;
use crate::ui_state::{event_views, EventView, VoiceUiEvent};

verus! {

/// How long the daemon is asked to wait for an event.
pub const EVENT_WAIT_MS: u64 = 1_000;

/// What comes from outside.
#[derive(Debug)]
pub enum PollNews {
    /// The profile cannot be used, and why.
    NoClient(String),
    /// The daemon cannot be reached, and why.
    NoConnection(String),
    Connected,
    /// All the events so far.
    Snapshot(Result<Vec<Json>, String>),
    /// The events after the last one seen.
    Events(Result<Vec<Json>, String>),
}

/// What comes from outside, as it is meant.
pub enum NewsView {
    NoClient(Seq<char>),
    NoConnection(Seq<char>),
    Connected,
    Snapshot(Result<Seq<JsonView>, Seq<char>>),
    Events(Result<Seq<JsonView>, Seq<char>>),
}

pub open spec fn result_view(result: Result<Vec<Json>, String>) -> Result<
    Seq<JsonView>,
    Seq<char>,
> {
    match result {
        Ok(events) => Ok(views(events@)),
        Err(error) => Err(error@),
    }
}

impl View for PollNews {
    type V = NewsView;

    open spec fn view(&self) -> NewsView {
        match self {
            PollNews::NoClient(error) => NewsView::NoClient(error@),
            PollNews::NoConnection(error) => NewsView::NoConnection(error@),
            PollNews::Connected => NewsView::Connected,
            PollNews::Snapshot(result) => NewsView::Snapshot(result_view(*result)),
            PollNews::Events(result) => NewsView::Events(result_view(*result)),
        }
    }
}

/// What is done next.
#[derive(Clone, Copy, Debug, PartialEq, Eq, Structural)]
pub enum PollStep {
    /// Start the daemon, if that is due, and connect after a while.
    Connect { start_daemon: bool, pause_ms: u64 },
    /// Ask for all the events so far.
    Snapshot,
    /// Ask for the events after one.
    Await { after: u64, timeout_ms: u64 },
    /// Follow the events no longer.
    Stop,
}

pub open spec fn connect_after(pause_ms: u64) -> PollStep {
    PollStep::Connect { start_daemon: false, pause_ms }
}

pub open spec fn await_after(after: u64) -> PollStep {
    PollStep::Await { after, timeout_ms: EVENT_WAIT_MS }
}

/// What is done over a fresh connection: as long as nothing was seen, the events
/// so far are passed over.
pub open spec fn on_connection(last_sequence: u64) -> PollStep {
    if last_sequence == 0 {
        PollStep::Snapshot
    } else {
        await_after(last_sequence)
    }
}

fn connected(last_sequence: u64) -> (step: PollStep)
    ensures
        step == on_connection(last_sequence),
{
    if last_sequence == 0 {
        PollStep::Snapshot
    } else {
        PollStep::Await { after: last_sequence, timeout_ms: EVENT_WAIT_MS }
    }
}

/// What the events mean for the island, in order; an event that has been seen
/// means nothing.
pub open spec fn shown_of(last: u64, events: Seq<JsonView>) -> Seq<EventView>
    decreases events.len(),
{
    if events.len() == 0 {
        Seq::empty()
    } else {
        let rest = events.drop_last();
        match numbered(events.last(), advanced_by_all(last, rest), meaning(events.last())) {
            Some((_, shown)) => shown_of(last, rest).push(shown),
            None => shown_of(last, rest),
        }
    }
}

/// The agents' events are followed up to a number. The daemon was last started
/// at an instant.
#[derive(Clone, Copy, Debug, PartialEq, Eq, Structural)]
pub struct AgentPoll {
    pub last_sequence: u64,
    pub last_start: Option<u128>,
}

/// A start of the daemon is due: there was none within a second.
pub open spec fn start_is_due(last_start: Option<u128>, now: u128) -> bool {
    match last_start {
        Some(start) => span(start, now) >= 1_000_000_000,
        None => true,
    }
}

impl AgentPoll {
    /// How far the events are followed after the news.
    pub open spec fn after(self, news: NewsView, now: u128) -> AgentPoll {
        match news {
            NewsView::NoConnection(_) if start_is_due(self.last_start, now) => AgentPoll {
                last_start: Some(now),
                ..self
            },
            NewsView::Snapshot(Ok(events)) => AgentPoll {
                last_sequence: advanced_by_all(0, events),
                ..self
            },
            NewsView::Events(Ok(events)) => AgentPoll {
                last_sequence: advanced_by_all(self.last_sequence, events),
                ..self
            },
            _ => self,
        }
    }

    /// What is done next after the news.
    pub open spec fn step(self, news: NewsView, now: u128) -> PollStep {
        match news {
            NewsView::NoClient(_) => connect_after(250),
            NewsView::NoConnection(_) => PollStep::Connect {
                start_daemon: start_is_due(self.last_start, now),
                pause_ms: 100,
            },
            NewsView::Connected => on_connection(self.last_sequence),
            NewsView::Snapshot(Err(_)) => connect_after(250),
            NewsView::Events(Err(_)) => connect_after(100),
            _ => await_after(self.after(news, now).last_sequence),
        }
    }

    /// What the island is told of the news.
    pub open spec fn told(self, news: NewsView) -> Seq<EventView> {
        match news {
            NewsView::NoClient(error) | NewsView::Snapshot(Err(error)) => seq![
                EventView::Error("HUD event poll failed: "@ + error),
            ],
            NewsView::Events(Ok(events)) => shown_of(self.last_sequence, events),
            _ => Seq::empty(),
        }
    }

    /// Nothing was seen yet.
    pub fn new() -> (poll: AgentPoll)
        ensures
            poll == (AgentPoll { last_sequence: 0, last_start: None }),
    {
        AgentPoll { last_sequence: 0, last_start: None }
    }

    /// Takes up the news: what is done next, and what the island is told.
    pub fn next(&mut self, news: &PollNews, now: u128) -> (next: (PollStep, Vec<VoiceUiEvent>))
        ensures
            *final(self) == old(self).after(news@, now),
            next.0 == old(self).step(news@, now),
            event_views(next.1@) == old(self).told(news@),
    {
        let mut told: Vec<VoiceUiEvent> = Vec::new();
        assert(event_views(told@) =~= Seq::<EventView>::empty());
        let step = match news {
            PollNews::NoClient(error) | PollNews::Snapshot(Err(error)) => {
                told.push(
                    VoiceUiEvent::Error(concat("HUD event poll failed: ", error.as_str())),
                );
                assert(event_views(told@) =~= self.told(news@));
                PollStep::Connect { start_daemon: false, pause_ms: 250 }
            },
            PollNews::NoConnection(_) => {
                let due = match self.last_start {
                    Some(start) => restart_is_due(start, now),
                    None => true,
                };
                if due {
                    self.last_start = Some(now);
                }
                PollStep::Connect { start_daemon: due, pause_ms: 100 }
            },
            PollNews::Connected => connected(self.last_sequence),
            PollNews::Snapshot(Ok(events)) => {
                self.last_sequence = max_daemon_event_sequence(events);
                PollStep::Await { after: self.last_sequence, timeout_ms: EVENT_WAIT_MS }
            },
            PollNews::Events(Ok(events)) => {
                told = self.take_up(events);
                PollStep::Await { after: self.last_sequence, timeout_ms: EVENT_WAIT_MS }
            },
            PollNews::Events(Err(_)) => PollStep::Connect { start_daemon: false, pause_ms: 100 },
        };
        (step, told)
    }

    fn take_up(&mut self, events: &Vec<Json>) -> (shown: Vec<VoiceUiEvent>)
        ensures
            event_views(shown@) == shown_of(old(self).last_sequence, views(events@)),
            *final(self) == (AgentPoll {
                last_sequence: advanced_by_all(old(self).last_sequence, views(events@)),
                ..*old(self)
            }),
    {
        let ghost all = views(events@);
        let ghost first = self.last_sequence;
        let mut last = self.last_sequence;
        let mut shown: Vec<VoiceUiEvent> = Vec::new();
        let mut i: usize = 0;
        assert(all.take(0).len() == 0);
        assert(event_views(shown@) =~= shown_of(first, all.take(0)));
        while i < events.len()
            invariant
                i <= events@.len(),
                all == views(events@),
                event_views(shown@) == shown_of(first, all.take(i as int)),
                last == advanced_by_all(first, all.take(i as int)),
            decreases events@.len() - i,
        {
            assert(all.take(i + 1).drop_last() =~= all.take(i as int));
            assert(all.take(i + 1).last() == events@[i as int]@);
            let ghost before = event_views(shown@);
            if let Some(event) = agent_ui_event_from_daemon_event_advancing_cursor(
                &events[i],
                &mut last,
            ) {
                shown.push(event);
                assert(event_views(shown@) =~= before.push(event@));
            }
            i = i + 1;
        }
        assert(all.take(all.len() as int) =~= all);
        self.last_sequence = last;
        shown
    }
}

/// Events that have been seen mean nothing when they come again.
pub proof fn lemma_seen_events_are_not_shown(seen: Seq<JsonView>, last: u64, again: Seq<JsonView>)
    requires
        forall|i: int|
            #![trigger again[i]]
            0 <= i < again.len() ==> seen.contains(again[i]),
    ensures
        shown_of(advanced_by_all(last, seen), again) == Seq::<EventView>::empty(),
        advanced_by_all(advanced_by_all(last, seen), again) == advanced_by_all(last, seen),
    decreases again.len(),
{
    if again.len() > 0 {
        let rest = again.drop_last();
        assert forall|i: int| #![trigger rest[i]] 0 <= i < rest.len() implies seen.contains(
            rest[i],
        ) by {
            assert(rest[i] == again[i]);
        }
        lemma_seen_events_are_not_shown(seen, last, rest);
        let event = again[again.len() - 1];
        let k = choose|k: int| 0 <= k < seen.len() && seen[k] == event;
        lemma_seen_is_passed(seen, last, k);
        lemma_event_is_shown_once(event, 0, advanced_by_all(last, seen));
    }
}

proof fn lemma_seen_is_passed(seen: Seq<JsonView>, last: u64, k: int)
    requires
        0 <= k < seen.len(),
    ensures
        advanced(0, seen[k]) <= advanced_by_all(last, seen),
    decreases seen.len(),
{
    if k < seen.len() - 1 {
        let rest = seen.drop_last();
        assert(rest[k] == seen[k]);
        lemma_seen_is_passed(rest, last, k);
    }
}

/// However often the daemon cannot be reached, it is started at most once in a
/// second.
pub proof fn lemma_daemon_is_started_once_in_a_second(
    poll: AgentPoll,
    first: Seq<char>,
    second: Seq<char>,
    now: u128,
    later: u128,
)
    requires
        now <= later < now + 1_000_000_000,
        poll.step(NewsView::NoConnection(first), now) == (PollStep::Connect {
            start_daemon: true,
            pause_ms: 100,
        }),
    ensures
        poll.after(NewsView::NoConnection(first), now).step(NewsView::NoConnection(second), later)
            == connect_after(100),
{
}

/// The inbox is followed up to a number. The failure to connect that was told
/// last is known.
#[derive(Debug)]
pub struct InboxPoll {
    pub last_sequence: u64,
    pub last_error: Option<String>,
}

/// How far the inbox is followed.
pub struct InboxPollView {
    pub last_sequence: u64,
    pub last_error: Option<Seq<char>>,
}

impl View for InboxPoll {
    type V = InboxPollView;

    open spec fn view(&self) -> InboxPollView {
        InboxPollView { last_sequence: self.last_sequence, last_error: opt_text(self.last_error) }
    }
}

impl InboxPollView {
    /// How far the inbox is followed after the news.
    pub open spec fn after(self, news: NewsView) -> InboxPollView {
        match news {
            NewsView::NoConnection(error) => InboxPollView { last_error: Some(error), ..self },
            NewsView::Connected => InboxPollView { last_error: None, ..self },
            NewsView::Snapshot(Ok(events)) => InboxPollView {
                last_sequence: advanced_by_all(0, events),
                ..self
            },
            NewsView::Events(Ok(events)) => InboxPollView {
                last_sequence: advanced_by_all(self.last_sequence, events),
                ..self
            },
            _ => self,
        }
    }

    /// What is done next after the news.
    pub open spec fn step(self, news: NewsView) -> PollStep {
        match news {
            NewsView::NoClient(_) | NewsView::Snapshot(Err(_)) => PollStep::Stop,
            NewsView::NoConnection(_) => connect_after(150),
            NewsView::Connected => on_connection(self.last_sequence),
            NewsView::Events(Err(_)) => connect_after(100),
            _ => await_after(self.after(news).last_sequence),
        }
    }

    /// What the log is told of the news: a failure to connect only if it is not
    /// the one that was told last.
    pub open spec fn logged(self, profile: Seq<char>, news: NewsView) -> Option<Seq<char>> {
        match news {
            NewsView::NoConnection(error) => if self.last_error == Some(error) {
                None
            } else {
                Some(
                    "cua voice inbox poll could not connect to profile socket for "@ + profile
                        + ": "@ + error,
                )
            },
            NewsView::Snapshot(Err(error)) => Some(
                "cua voice inbox poll events snapshot failed: "@ + error,
            ),
            NewsView::Events(Err(error)) => Some(
                "cua voice inbox poll events wait failed: "@ + error,
            ),
            _ => None,
        }
    }
}

/// What comes of the news from the inbox.
#[derive(Debug)]
pub struct InboxNext {
    pub step: PollStep,
    /// The messages that are carried out before the step, in order.
    pub messages: Vec<InboundHudMessage>,
    pub log: Option<String>,
    pub told: Option<VoiceUiEvent>,
}

impl InboxPoll {
    /// Nothing was seen yet.
    pub fn new() -> (poll: InboxPoll)
        ensures
            poll@ == (InboxPollView { last_sequence: 0, last_error: None }),
    {
        InboxPoll { last_sequence: 0, last_error: None }
    }

    /// Takes up the news.
    pub fn next(&mut self, profile: &str, news: &PollNews) -> (next: InboxNext)
        ensures
            final(self)@ == old(self)@.after(news@),
            next.step == old(self)@.step(news@),
            opt_text(next.log) == old(self)@.logged(profile@, news@),
            message_views(next.messages@) == (match news@ {
                NewsView::Events(Ok(events)) => messages_in(events),
                _ => Seq::empty(),
            }),
            crate::poll::opt_shown(next.told) == (match news@ {
                NewsView::NoClient(_) => Some(EventView::Error("Invalid cua profile path"@)),
                _ => None,
            }),
    {
        let mut next = InboxNext {
            step: PollStep::Stop,
            messages: Vec::new(),
            log: None,
            told: None,
        };
        assert(message_views(next.messages@) =~= Seq::<MessageView>::empty());
        match news {
            PollNews::NoClient(_) => {
                next.told = Some(VoiceUiEvent::Error("Invalid cua profile path".to_owned()));
            },
            PollNews::NoConnection(error) => {
                if note_connect_error(&mut self.last_error, error.as_str()) {
                    let mut log =
                        "cua voice inbox poll could not connect to profile socket for ".to_owned();
                    log.append(profile);
                    log.append(": ");
                    log.append(error.as_str());
                    next.log = Some(log);
                }
                next.step = PollStep::Connect { start_daemon: false, pause_ms: 150 };
            },
            PollNews::Connected => {
                self.last_error = None;
                next.step = connected(self.last_sequence);
            },
            PollNews::Snapshot(Ok(events)) => {
                self.last_sequence = max_daemon_event_sequence(events);
                next.step = PollStep::Await {
                    after: self.last_sequence,
                    timeout_ms: EVENT_WAIT_MS,
                };
            },
            PollNews::Snapshot(Err(error)) => {
                next.log = Some(
                    concat("cua voice inbox poll events snapshot failed: ", error.as_str()),
                );
            },
            PollNews::Events(Ok(events)) => {
                next.messages = inbox_messages(events, &mut self.last_sequence);
                next.step = PollStep::Await {
                    after: self.last_sequence,
                    timeout_ms: EVENT_WAIT_MS,
                };
            },
            PollNews::Events(Err(error)) => {
                next.log = Some(
                    concat("cua voice inbox poll events wait failed: ", error.as_str()),
                );
                next.step = PollStep::Connect { start_daemon: false, pause_ms: 100 };
            },
        }
        next
    }
}

/// What was in the inbox before it is followed is not carried out: over the
/// first connection the events so far are asked for, and the wait starts behind
/// all of them.
pub proof fn lemma_old_messages_are_passed_over(events: Seq<JsonView>, k: int)
    requires
        0 <= k < events.len(),
    ensures
        on_connection(0) == PollStep::Snapshot,
        ({
            let poll = InboxPollView { last_sequence: 0, last_error: None };
            let news = NewsView::Snapshot(Ok(events));
            &&& poll.step(news) == await_after(advanced_by_all(0, events))
            &&& advanced(0, events[k]) <= advanced_by_all(0, events)
        }),
{
    lemma_seen_is_passed(events, 0, k);
}

/// The events that come are shown in their order, each if its number is above
/// those that came before and it means something.
pub proof fn lemma_events_are_shown_in_order(
    last: u64,
    a: Seq<JsonView>,
    b: Seq<JsonView>,
    event: JsonView,
    n: u64,
)
    ensures
        shown_of(last, a + b) == shown_of(last, a) + shown_of(advanced_by_all(last, a), b),
        number_field(event, "sequence"@) == Some(n) && n > last ==> shown_of(last, seq![event]) == (
        match meaning(event) {
            Some(shown) => seq![shown],
            None => Seq::empty(),
        }),
        number_field(event, "sequence"@) == Some(n) && n <= last ==> shown_of(last, seq![event])
            == Seq::<EventView>::empty(),
        number_field(event, "sequence"@) is None ==> shown_of(last, seq![event]) == Seq::<
            EventView,
        >::empty(),
    decreases b.len(),
{
    let one = seq![event];
    assert(one.drop_last() =~= Seq::<JsonView>::empty());
    assert(one.last() == event);
    assert(shown_of(last, one.drop_last()) =~= Seq::<EventView>::empty());
    assert(advanced_by_all(last, one.drop_last()) == last);
    if meaning(event) is Some {
        assert(Seq::<EventView>::empty().push(meaning(event)->0) =~= seq![meaning(event)->0]);
    }
    if b.len() == 0 {
        assert(a + b =~= a);
        assert(shown_of(last, a) + shown_of(advanced_by_all(last, a), b) =~= shown_of(last, a));
    } else {
        let rest = b.drop_last();
        lemma_events_are_shown_in_order(last, a, rest, event, n);
        lemma_cursor_moves_on(last, a, rest);
        assert((a + b).drop_last() =~= a + rest);
        assert((a + b).last() == b.last());
        assert(shown_of(last, a + b) =~= shown_of(last, a) + shown_of(advanced_by_all(last, a), b));
    }
}

/// What was seen is not forgotten by an error or a new connection, and events
/// move it on to the largest number that came; a snapshot sets it to the largest
/// number that there is and shows nothing.
pub proof fn lemma_poll_keeps_its_place(
    poll: AgentPoll,
    events: Seq<JsonView>,
    error: Seq<char>,
    now: u128,
)
    ensures
        poll.after(NewsView::NoClient(error), now).last_sequence == poll.last_sequence,
        poll.after(NewsView::NoConnection(error), now).last_sequence == poll.last_sequence,
        poll.after(NewsView::Connected, now).last_sequence == poll.last_sequence,
        poll.after(NewsView::Snapshot(Err(error)), now).last_sequence == poll.last_sequence,
        poll.after(NewsView::Events(Err(error)), now).last_sequence == poll.last_sequence,
        poll.after(NewsView::Events(Ok(events)), now).last_sequence >= poll.last_sequence,
        poll.after(NewsView::Events(Ok(events)), now).last_sequence == advanced_by_all(
            poll.last_sequence,
            events,
        ),
        poll.after(NewsView::Snapshot(Ok(events)), now).last_sequence == advanced_by_all(0, events),
        poll.told(NewsView::Snapshot(Ok(events))) == Seq::<EventView>::empty(),
        poll.told(NewsView::Connected) == Seq::<EventView>::empty(),
        poll.told(NewsView::NoConnection(error)) == Seq::<EventView>::empty(),
        poll.told(NewsView::Events(Ok(events))) == shown_of(poll.last_sequence, events),
        poll.told(NewsView::NoClient(error)) == seq![
            EventView::Error("HUD event poll failed: "@ + error),
        ],
{
    lemma_cursor_is_the_largest(poll.last_sequence, events, 0);
}

/// After events the poll waits for those behind them; once connected it waits
/// behind what it saw, or takes a snapshot where it saw nothing; after any error
/// it connects again.
pub proof fn lemma_poll_goes_on(
    poll: AgentPoll,
    events: Seq<JsonView>,
    error: Seq<char>,
    now: u128,
)
    ensures
        poll.step(NewsView::Events(Ok(events)), now) matches PollStep::Await { after, .. } && after
            == poll.after(NewsView::Events(Ok(events)), now).last_sequence,
        poll.step(NewsView::Snapshot(Ok(events)), now) matches PollStep::Await { after, .. }
            && after == advanced_by_all(0, events),
        poll.last_sequence == 0 ==> poll.step(NewsView::Connected, now) is Snapshot,
        poll.last_sequence > 0 ==> (poll.step(NewsView::Connected, now) matches PollStep::Await {
            after,
            ..
        } && after == poll.last_sequence),
        poll.step(NewsView::NoClient(error), now) is Connect,
        poll.step(NewsView::NoConnection(error), now) is Connect,
        poll.step(NewsView::Snapshot(Err(error)), now) is Connect,
        poll.step(NewsView::Events(Err(error)), now) is Connect,
{
}

/// The daemon is started when there is no connection and none was started within
/// the last second, and only then.
pub proof fn lemma_daemon_is_started_when_due(
    poll: AgentPoll,
    error: Seq<char>,
    now: u128,
    start: u128,
)
    ensures
        poll.last_start is None ==> poll.step(NewsView::NoConnection(error), now) == (
        PollStep::Connect { start_daemon: true, pause_ms: 100 }) && poll.after(
            NewsView::NoConnection(error),
            now,
        ).last_start == Some(now),
        poll.last_start == Some(start) && now >= start + 1_000_000_000 ==> poll.step(
            NewsView::NoConnection(error),
            now,
        ) == (PollStep::Connect { start_daemon: true, pause_ms: 100 }) && poll.after(
            NewsView::NoConnection(error),
            now,
        ).last_start == Some(now),
        poll.last_start == Some(start) && now < start + 1_000_000_000 ==> poll.step(
            NewsView::NoConnection(error),
            now,
        ) == (PollStep::Connect { start_daemon: false, pause_ms: 100 }) && poll.after(
            NewsView::NoConnection(error),
            now,
        ).last_start == Some(start),
        poll.after(NewsView::Connected, now).last_start == poll.last_start,
{
}

/// The inbox keeps its place as the island does, and stops only where it cannot
/// begin.
pub proof fn lemma_inbox_keeps_its_place(
    poll: InboxPollView,
    events: Seq<JsonView>,
    error: Seq<char>,
)
    ensures
        poll.after(NewsView::NoConnection(error)).last_sequence == poll.last_sequence,
        poll.after(NewsView::Connected).last_sequence == poll.last_sequence,
        poll.after(NewsView::Events(Err(error))).last_sequence == poll.last_sequence,
        poll.after(NewsView::Events(Ok(events))).last_sequence == advanced_by_all(
            poll.last_sequence,
            events,
        ),
        poll.after(NewsView::Snapshot(Ok(events))).last_sequence == advanced_by_all(0, events),
        poll.step(NewsView::Events(Ok(events))) matches PollStep::Await { after, .. } && after
            == advanced_by_all(poll.last_sequence, events),
        poll.step(NewsView::Snapshot(Ok(events))) matches PollStep::Await { after, .. } && after
            == advanced_by_all(0, events),
        poll.last_sequence == 0 ==> poll.step(NewsView::Connected) is Snapshot,
        poll.last_sequence > 0 ==> (poll.step(NewsView::Connected) matches PollStep::Await {
            after,
            ..
        } && after == poll.last_sequence),
        poll.step(NewsView::NoConnection(error)) is Connect,
        poll.step(NewsView::Events(Err(error))) is Connect,
        poll.step(NewsView::NoClient(error)) is Stop,
        poll.step(NewsView::Snapshot(Err(error))) is Stop,
{
}

/// The same trouble with the connection is told once, until another one comes or
/// the connection stands.
pub proof fn lemma_trouble_is_told_once(
    poll: InboxPollView,
    profile: Seq<char>,
    error: Seq<char>,
    other: Seq<char>,
)
    ensures
        poll.after(NewsView::NoConnection(error)).logged(profile, NewsView::NoConnection(error))
            is None,
        other != error ==> poll.after(NewsView::NoConnection(error)).logged(
            profile,
            NewsView::NoConnection(other),
        ) is Some,
        poll.after(NewsView::Connected).logged(profile, NewsView::NoConnection(error)) is Some,
        poll.logged(profile, NewsView::Connected) is None,
        poll.logged(profile, NewsView::Events(Err(error))) is Some,
{
}

} // verus!
