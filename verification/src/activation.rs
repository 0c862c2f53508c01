//! Double taps: of the control key, and of the mouse on the island.
//!
//! Instants are in nanoseconds of a clock that does not go back.

use vstd::prelude::*;

use crate::time::{elapsed_between, span};

verus! {

/// The longest time between the two releases of a double tap.
pub const DOUBLE_TAP_WINDOW: u128 = 360_000_000;

/// Watches one key for two quick taps.
#[derive(Clone, Debug)]
pub struct ControlDoubleTap {
    last_release: Option<u128>,
    was_down: bool,
    window: u128,
}

pub struct TapView {
    /// When the key was let go after the first tap of a pair.
    pub last_release: Option<u128>,
    /// Whether the key is held.
    pub was_down: bool,
    /// The longest time between the two releases.
    pub window: u128,
}

impl View for ControlDoubleTap {
    type V = TapView;

    closed spec fn view(&self) -> TapView {
        TapView { last_release: self.last_release, was_down: self.was_down, window: self.window }
    }
}

/// The key is pressed.
pub open spec fn pressed(s: TapView) -> TapView {
    TapView { was_down: true, ..s }
}

/// A release completes a double tap: the key was held, and the tap before
/// ended at most a window ago.
pub open spec fn completes(s: TapView, now: u128) -> bool {
    s.was_down && match s.last_release {
        Some(last) => span(last, now) <= s.window,
        None => false,
    }
}

/// The key is let go. A pair of taps is used up when it is complete.
pub open spec fn released(s: TapView, now: u128) -> TapView {
    if !s.was_down {
        s
    } else {
        TapView {
            was_down: false,
            last_release: if completes(s, now) {
                None
            } else {
                Some(now)
            },
            ..s
        }
    }
}

impl ControlDoubleTap {
    pub fn new(window: u128) -> (detector: ControlDoubleTap)
        ensures
            detector@ == (TapView { last_release: None, was_down: false, window }),
    {
        ControlDoubleTap { last_release: None, was_down: false, window }
    }

    /// The key is pressed. That alone never completes a double tap.
    pub fn key_down(&mut self) -> (triggered: bool)
        ensures
            final(self)@ == pressed(old(self)@),
            !triggered,
    {
        self.was_down = true;
        false
    }

    /// The key is let go. Tells whether that completes a double tap.
    pub fn key_up(&mut self, now: u128) -> (triggered: bool)
        ensures
            final(self)@ == released(old(self)@, now),
            triggered == completes(old(self)@, now),
    {
        if !self.was_down {
            return false;
        }
        self.was_down = false;
        let triggered = match self.last_release {
            Some(last) => elapsed_between(last, now) <= self.window,
            None => false,
        };
        self.last_release = if triggered {
            None
        } else {
            Some(now)
        };
        triggered
    }
}

impl Default for ControlDoubleTap {
    fn default() -> (detector: ControlDoubleTap)
        ensures
            detector@ == (TapView {
                last_release: None,
                was_down: false,
                window: DOUBLE_TAP_WINDOW,
            }),
    {
        ControlDoubleTap::new(DOUBLE_TAP_WINDOW)
    }
}

/// Two taps whose releases are at most a window apart trigger exactly once,
/// with the second; two that are further apart do not.
pub proof fn lemma_double_tap(window: u128, first: u128, second: u128)
    ensures
        ({
            let start = TapView { last_release: None, was_down: false, window };
            let after = released(pressed(start), first);
            &&& !completes(pressed(start), first)
            &&& completes(pressed(after), second) <==> span(first, second) <= window
        }),
{
}

/// After a double tap the next tap begins a new pair: it triggers nothing,
/// however quick it is.
pub proof fn lemma_double_tap_is_used_up(s: TapView, now: u128, later: u128)
    requires
        completes(s, now),
    ensures
        !completes(pressed(released(s, now)), later),
        !completes(released(s, now), later),
{
}

/// The key as it is found when it is looked at.
pub open spec fn sampled(s: TapView, was_down: bool, is_down: bool, now: u128) -> TapView {
    if is_down && !was_down {
        pressed(s)
    } else if !is_down && was_down {
        released(s, now)
    } else {
        s
    }
}

/// Looks at the control key. Tells whether a double tap is complete.
pub fn control_poll_sample_triggers_arm(
    detector: &mut ControlDoubleTap,
    was_down: &mut bool,
    is_down: bool,
    now: u128,
) -> (triggered: bool)
    ensures
        final(detector)@ == sampled(old(detector)@, *old(was_down), is_down, now),
        *final(was_down) == is_down,
        triggered == (!is_down && *old(was_down) && completes(old(detector)@, now)),
{
    let triggered = if is_down && !*was_down {
        detector.key_down();
        false
    } else {
        !is_down && *was_down && detector.key_up(now)
    };
    *was_down = is_down;
    triggered
}

/// What the left mouse button does.
#[derive(Clone, Copy, Debug, PartialEq, Eq, Structural)]
pub enum LeftMouseEventKind {
    Down,
    Up,
}

/// The double taps on the island, after the button went down or up. Only taps
/// that start and end inside count.
pub open spec fn tapped(
    s: TapView,
    started_inside: bool,
    kind: LeftMouseEventKind,
    inside: bool,
    now: u128,
) -> TapView {
    match kind {
        LeftMouseEventKind::Down => if inside {
            pressed(s)
        } else {
            s
        },
        LeftMouseEventKind::Up => if started_inside && inside {
            released(s, now)
        } else {
            s
        },
    }
}

/// Takes up an event of the mouse; `inside` tells whether it is on the island.
/// Tells whether a double tap is complete.
pub fn island_mouse_event_triggers_toggle(
    detector: &mut ControlDoubleTap,
    tap_started_inside: &mut bool,
    kind: LeftMouseEventKind,
    inside: bool,
    now: u128,
) -> (triggered: bool)
    ensures
        final(detector)@ == tapped(old(detector)@, *old(tap_started_inside), kind, inside, now),
        *final(tap_started_inside) == (kind == LeftMouseEventKind::Down && inside),
        triggered == (kind == LeftMouseEventKind::Up && *old(tap_started_inside) && inside
            && completes(old(detector)@, now)),
{
    match kind {
        LeftMouseEventKind::Down => {
            *tap_started_inside = inside;
            if inside {
                detector.key_down();
            }
            false
        },
        LeftMouseEventKind::Up => {
            let valid_tap = *tap_started_inside && inside;
            *tap_started_inside = false;
            valid_tap && detector.key_up(now)
        },
    }
}

/// Looks at the left mouse button; `inside` tells whether the pointer is on
/// the island. Tells whether a double tap is complete.
pub fn island_mouse_sample_triggers_toggle(
    detector: &mut ControlDoubleTap,
    was_down: &mut bool,
    tap_started_inside: &mut bool,
    is_down: bool,
    inside: bool,
    now: u128,
) -> (triggered: bool)
    ensures
        *final(was_down) == is_down,
        is_down == *old(was_down) ==> final(detector)@ == old(detector)@
            && *final(tap_started_inside) == *old(tap_started_inside) && !triggered,
        is_down && !*old(was_down) ==> final(detector)@ == tapped(
            old(detector)@,
            *old(tap_started_inside),
            LeftMouseEventKind::Down,
            inside,
            now,
        ) && *final(tap_started_inside) == inside && !triggered,
        !is_down && *old(was_down) ==> final(detector)@ == tapped(
            old(detector)@,
            *old(tap_started_inside),
            LeftMouseEventKind::Up,
            inside,
            now,
        ) && !*final(tap_started_inside) && triggered == (*old(tap_started_inside) && inside
            && completes(old(detector)@, now)),
{
    let triggered = if is_down && !*was_down {
        island_mouse_event_triggers_toggle(
            detector,
            tap_started_inside,
            LeftMouseEventKind::Down,
            inside,
            now,
        )
    } else if !is_down && *was_down {
        island_mouse_event_triggers_toggle(
            detector,
            tap_started_inside,
            LeftMouseEventKind::Up,
            inside,
            now,
        )
    } else {
        false
    };
    *was_down = is_down;
    triggered
}

/// A tap that starts or ends off the island leaves the pair as it was.
pub proof fn lemma_tap_off_the_island_is_ignored(
    s: TapView,
    starts: bool,
    ends: bool,
    down: u128,
    up: u128,
)
    requires
        !s.was_down,
        !(starts && ends),
    ensures
        ({
            let held = tapped(s, false, LeftMouseEventKind::Down, starts, down);
            let after = tapped(held, starts, LeftMouseEventKind::Up, ends, up);
            after.last_release == s.last_release && after.window == s.window
        }),
{
}

/// The voice turn that the double tap started, if one runs. Turns are numbered
/// in the order in which they start.
#[derive(Clone, Copy, Debug, PartialEq, Eq, Structural)]
pub struct ShortcutController {
    pub active: Option<u64>,
    pub started: u64,
}

/// What a double tap of the control key asks for.
#[derive(Clone, Copy, Debug, PartialEq, Eq, Structural)]
pub enum ShortcutRequest {
    /// Start the turn of that number.
    Start(u64),
    /// Stop the turn of that number.
    Stop(u64),
}

impl ShortcutController {
    /// The turn that runs has been started.
    pub open spec fn valid(self) -> bool {
        match self.active {
            Some(turn) => turn < self.started,
            None => true,
        }
    }

    pub fn new() -> (controller: ShortcutController)
        ensures
            controller == (ShortcutController { active: None, started: 0 }),
            controller.valid(),
    {
        ShortcutController { active: None, started: 0 }
    }

    /// A double tap: the turn that runs is to stop; where none runs, one is to
    /// start.
    pub fn shortcut_trigger_requests_start(&mut self) -> (request: ShortcutRequest)
        requires
            old(self).valid(),
            old(self).started < u64::MAX,
        ensures
            final(self).valid(),
            match old(self).active {
                Some(turn) => request == ShortcutRequest::Stop(turn) && *final(self) == *old(self),
                None => request == ShortcutRequest::Start(old(self).started) && *final(self) == (
                ShortcutController {
                    active: Some(old(self).started),
                    started: (old(self).started + 1) as u64,
                }),
            },
    {
        match self.active {
            Some(turn) => ShortcutRequest::Stop(turn),
            None => {
                let turn = self.started;
                self.active = Some(turn);
                self.started = turn + 1;
                ShortcutRequest::Start(turn)
            },
        }
    }

    /// A turn has ended. Only the turn that runs makes room for another.
    pub fn shortcut_turn_finished(&mut self, turn: u64)
        requires
            old(self).valid(),
        ensures
            final(self).valid(),
            *final(self) == (ShortcutController {
                active: if old(self).active == Some(turn) {
                    None
                } else {
                    old(self).active
                },
                started: old(self).started,
            }),
    {
        if let Some(active) = self.active {
            if active == turn {
                self.active = None;
            }
        }
    }
}

/// A press, and a release at `now`.
pub open spec fn tap(s: TapView, now: u128) -> TapView {
    released(pressed(s), now)
}

/// Whatever was tapped before, a release that does not trigger begins a pair: a
/// press and a release after it trigger if they end at most a window later, and
/// else begin a pair again.
pub proof fn lemma_release_begins_a_pair(s: TapView, first: u128, second: u128)
    requires
        s.was_down,
        !completes(s, first),
    ensures
        second <= first + s.window ==> completes(pressed(released(s, first)), second),
        second > first + s.window ==> !completes(pressed(released(s, first)), second),
{
}

/// Of a row of taps the last one triggers.
pub open spec fn last_tap_triggers(window: u128, times: Seq<u128>) -> bool
    decreases times.len(),
{
    &&& times.len() >= 2
    &&& times.last() <= times[times.len() - 2] + window
    &&& !last_tap_triggers(window, times.drop_last())
}

/// The key after a row of taps.
pub open spec fn after_taps(window: u128, times: Seq<u128>) -> TapView
    decreases times.len(),
{
    if times.len() == 0 {
        TapView { last_release: None, was_down: false, window }
    } else {
        tap(after_taps(window, times.drop_last()), times.last())
    }
}

/// In a row of taps, however long it is, one triggers exactly if the one before
/// it did not trigger and ended at most a window earlier.
pub proof fn lemma_row_of_taps(window: u128, times: Seq<u128>, now: u128)
    ensures
        completes(pressed(after_taps(window, times)), now) <==> last_tap_triggers(
            window,
            times.push(now),
        ),
        !after_taps(window, times).was_down,
        after_taps(window, times).window == window,
    decreases times.len(),
{
    assert(times.push(now).drop_last() =~= times);
    if times.len() > 0 {
        let earlier = times.drop_last();
        lemma_row_of_taps(window, earlier, times.last());
        assert(earlier.push(times.last()) =~= times);
    }
}

/// A release without a press neither triggers nor counts, and a press that goes
/// on counts once.
pub proof fn lemma_only_whole_taps_count(s: TapView, now: u128)
    ensures
        !s.was_down ==> !completes(s, now) && released(s, now) == s,
        completes(pressed(pressed(s)), now) == completes(pressed(s), now),
        released(pressed(pressed(s)), now) == released(pressed(s), now),
        pressed(s).last_release == s.last_release,
        pressed(s).window == s.window,
        !released(s, now).was_down,
        released(s, now).window == s.window,
{
}

/// While the key is looked at, a change from up to down is a press, one from down
/// to up is a release, and without a change nothing happens.
pub proof fn lemma_samples_are_presses_and_releases(s: TapView, now: u128)
    ensures
        sampled(s, false, true, now) == pressed(s),
        sampled(s, true, false, now) == released(s, now),
        sampled(s, true, true, now) == s,
        sampled(s, false, false, now) == s,
{
}

/// A tap that starts and ends on the island is a tap.
pub proof fn lemma_tap_on_the_island_counts(s: TapView, down: u128, up: u128)
    ensures
        tapped(
            tapped(s, false, LeftMouseEventKind::Down, true, down),
            true,
            LeftMouseEventKind::Up,
            true,
            up,
        ) == tap(s, up),
{
}

} // verus!
