//! The state of the island: what it shows, whether it is open, and what was
//! put in its place.
//!
//! Instants are in nanoseconds of a clock that does not go back.

use vstd::prelude::*;

use crate::scene::{
    IslandAmbientPattern, IslandBackground, IslandColorStop, IslandLayout, IslandScene, IslandTheme,
};
use crate::spacing::lemma_trimmed_is_the_core;
use crate::text::{
    after_prefix, all_digits, char_count, chars_of, decimal, decimal_of, first_at, first_chars,
    first_position, is_digit, last_at, last_position, last_position_of, lemma_first_position,
    lemma_last_position, lemma_number_is_read_back, lower, occurs_at, parse_u64, parsed,
    position_of, rest_from, same_ignoring_case, starts_with, texts, trim, trimmed,
};
use crate::time::{elapsed_between, span};
use crate::ui_state::{
    after_event, idle_snapshot, phase_label, EventView, HudPhase, HudSnapshot, SnapshotView, UiMode,
    VoiceUiEvent,
};

verus! {

/// The shortest time between two toggles.
pub const ISLAND_TOGGLE_GAP: u128 = 260_000_000;

/// The mode that the flags ask for. Without a flag the island is shown.
pub fn ui_mode_from_flags(headful: bool, headless: bool) -> (mode: UiMode)
    ensures
        mode == (if headless {
            UiMode::Headless
        } else {
            UiMode::Headful
        }),
{
    if headless {
        UiMode::Headless
    } else {
        UiMode::Headful
    }
}

/// Who drives the agent at first.
pub open spec fn first_source(mode: UiMode) -> Seq<char> {
    match mode {
        UiMode::Headful => "voice"@,
        UiMode::Headless => "automation"@,
    }
}

/// Who drives the agent at first.
pub fn initial_ui_source(mode: UiMode) -> (source: &'static str)
    ensures
        source@ == first_source(mode),
{
    match mode {
        UiMode::Headful => "voice",
        UiMode::Headless => "automation",
    }
}

/// The coordinates in the label of a double click of the left button:
/// everything between "Left mouse click at " and the last " x", on both sides
/// of the first comma.
pub open spec fn double_click(label: Seq<char>) -> Option<(Seq<char>, Seq<char>)> {
    let line = trimmed(label);
    match last_position(line, " x"@) {
        Some(at) => {
            let head = line.take(at);
            match parsed(line.skip(at + 2), u8::MAX as nat) {
                Some(count) => if count >= 2 && starts_with(head, "Left mouse click at "@) {
                    let place = head.skip("Left mouse click at "@.len() as int);
                    match first_position(place, ","@) {
                        Some(comma) => Some(
                            (trimmed(place.take(comma)), trimmed(place.skip(comma + 1))),
                        ),
                        None => None,
                    }
                } else {
                    None
                },
                None => None,
            }
        },
        None => None,
    }
}

pub open spec fn opt_pair(pair: Option<(String, String)>) -> Option<(Seq<char>, Seq<char>)> {
    match pair {
        Some((x, y)) => Some((x@, y@)),
        None => None,
    }
}

/// The coordinates in the label of a double click of the left button, as they
/// are written there.
pub fn automation_double_click_coords(label: &str) -> (coords: Option<(String, String)>)
    ensures
        opt_pair(coords) == double_click(label@),
{
    proof {
        reveal_strlit(" x");
        reveal_strlit(",");
    }
    let line = trim(label);
    let line_count = char_count(line.as_str());
    let Some(at) = last_position_of(line.as_str(), " x") else {
        return None;
    };
    assert(at + 2 <= line_count);
    let head = first_chars(line.as_str(), at);
    let tail = rest_from(line.as_str(), at + 2);
    let Some(count) = parse_u64(tail.as_str()) else {
        return None;
    };
    if count > 255 || count < 2 {
        return None;
    }
    let Some(place) = after_prefix(head.as_str(), "Left mouse click at ") else {
        return None;
    };
    let place_count = char_count(place.as_str());
    let Some(comma) = position_of(place.as_str(), ",") else {
        return None;
    };
    assert(comma + 1 <= place_count);
    let x = first_chars(place.as_str(), comma);
    let y = rest_from(place.as_str(), comma + 1);
    Some((trim(x.as_str()), trim(y.as_str())))
}

/// The state of the island.
#[derive(Debug)]
pub struct VoiceHud {
    pub snapshot: HudSnapshot,
    pub expanded: bool,
    pub minimized: bool,
    pub dragging: bool,
    pub last_island_toggle_at: Option<u128>,
    pub custom_scene: Option<IslandScene>,
    pub custom_theme: Option<IslandTheme>,
    pub custom_background: Option<IslandBackground>,
}

pub struct HudView {
    pub snapshot: SnapshotView,
    pub expanded: bool,
    pub minimized: bool,
    pub dragging: bool,
    pub last_island_toggle_at: Option<u128>,
    pub custom_scene: Option<IslandScene>,
    pub custom_theme: Option<IslandTheme>,
    pub custom_background: Option<IslandBackground>,
}

impl View for VoiceHud {
    type V = HudView;

    open spec fn view(&self) -> HudView {
        HudView {
            snapshot: self.snapshot@,
            expanded: self.expanded,
            minimized: self.minimized,
            dragging: self.dragging,
            last_island_toggle_at: self.last_island_toggle_at,
            custom_scene: self.custom_scene,
            custom_theme: self.custom_theme,
            custom_background: self.custom_background,
        }
    }
}

/// A toggle counts: the last one that did was long enough ago.
pub open spec fn toggle_counts(h: HudView, now: u128) -> bool {
    match h.last_island_toggle_at {
        Some(last) => span(last, now) >= ISLAND_TOGGLE_GAP,
        None => true,
    }
}

/// What a toggle does: the state after it, and what is asked of the window.
pub open spec fn after_toggle(h: HudView, asked: Option<bool>, now: u128) -> (HudView, Option<bool>) {
    if toggle_counts(h, now) {
        (
            HudView { last_island_toggle_at: Some(now), ..h },
            Some(
                !(match asked {
                    Some(open) => open,
                    None => h.expanded,
                }),
            ),
        )
    } else {
        (h, asked)
    }
}

/// An event that tells of a double click on the island.
pub open spec fn clicks_island(event: EventView, on_island: bool) -> bool {
    match event {
        EventView::AutomationActivity { label, .. } => on_island && double_click(label) is Some,
        _ => false,
    }
}

/// What an event does: the state after it, and whether the window is to be
/// opened or closed. `asked` is what earlier events ask; `on_island` tells
/// whether the double click of an event is on the island.
pub open spec fn hud_after(
    h: HudView,
    event: EventView,
    asked: Option<bool>,
    now: u128,
    on_island: bool,
) -> (HudView, Option<bool>) {
    match event {
        EventView::ToggleExpanded => after_toggle(h, asked, now),
        EventView::SetExpanded(open) => (h, Some(open)),
        EventView::SetMinimized(minimized) => (
            HudView { minimized, expanded: h.expanded && !minimized, dragging: false, ..h },
            None,
        ),
        EventView::SceneSet(scene) => (
            HudView { custom_scene: Some(scene), ..h },
            Some(scene.layout == IslandLayout::Expanded),
        ),
        EventView::SceneReset => (
            HudView { custom_scene: None, custom_theme: None, custom_background: None, ..h },
            asked,
        ),
        EventView::SceneTheme(theme) => (HudView { custom_theme: Some(theme), ..h }, asked),
        EventView::SceneBackground(background) => (
            HudView { custom_background: Some(background), ..h },
            asked,
        ),
        _ => {
            let toggled = if clicks_island(event, on_island) {
                after_toggle(h, asked, now)
            } else {
                (h, asked)
            };
            (HudView { snapshot: after_event(h.snapshot, event), ..toggled.0 }, toggled.1)
        },
    }
}

impl VoiceHud {
    /// A closed island in that mode.
    pub fn new(mode: UiMode) -> (hud: VoiceHud)
        ensures
            hud@ == (HudView {
                snapshot: after_event(
                    idle_snapshot(),
                    EventView::UiMode { mode, source: Some(first_source(mode)) },
                ),
                expanded: false,
                minimized: false,
                dragging: false,
                last_island_toggle_at: None,
                custom_scene: None,
                custom_theme: None,
                custom_background: None,
            }),
    {
        let mut snapshot = HudSnapshot::default();
        let source = initial_ui_source(mode).to_owned();
        snapshot.apply(VoiceUiEvent::UiMode { mode, source: Some(source) });
        VoiceHud {
            snapshot,
            expanded: false,
            minimized: false,
            dragging: false,
            last_island_toggle_at: None,
            custom_scene: None,
            custom_theme: None,
            custom_background: None,
        }
    }

    /// Whether a toggle counts. One that does keeps quick ones after it from
    /// counting.
    pub fn accept_island_toggle(&mut self, now: u128) -> (accepted: bool)
        ensures
            accepted == toggle_counts(old(self)@, now),
            final(self)@ == (if accepted {
                HudView { last_island_toggle_at: Some(now), ..old(self)@ }
            } else {
                old(self)@
            }),
    {
        if let Some(last) = self.last_island_toggle_at {
            if elapsed_between(last, now) < ISLAND_TOGGLE_GAP {
                return false;
            }
        }
        self.last_island_toggle_at = Some(now);
        true
    }

    fn toggle(&mut self, asked: Option<bool>, now: u128) -> (command: Option<bool>)
        ensures
            (final(self)@, command) == after_toggle(old(self)@, asked, now),
    {
        if self.accept_island_toggle(now) {
            Some(
                !(match asked {
                    Some(open) => open,
                    None => self.expanded,
                }),
            )
        } else {
            asked
        }
    }

    /// Takes up an event. Tells whether the window is to be opened or closed.
    pub fn apply_voice_event(
        &mut self,
        event: VoiceUiEvent,
        current_expansion_command: Option<bool>,
        now: u128,
        on_island: bool,
    ) -> (command: Option<bool>)
        ensures
            (final(self)@, command) == hud_after(
                old(self)@,
                event@,
                current_expansion_command,
                now,
                on_island,
            ),
    {
        match event {
            VoiceUiEvent::ToggleExpanded => self.toggle(current_expansion_command, now),
            VoiceUiEvent::SetExpanded(open) => Some(open),
            VoiceUiEvent::SetMinimized(minimized) => {
                self.minimized = minimized;
                if minimized {
                    self.expanded = false;
                }
                self.dragging = false;
                None
            },
            VoiceUiEvent::SceneSet(scene) => {
                let open = scene.layout == IslandLayout::Expanded;
                self.custom_scene = Some(scene);
                Some(open)
            },
            VoiceUiEvent::SceneReset => {
                self.custom_scene = None;
                self.custom_theme = None;
                self.custom_background = None;
                current_expansion_command
            },
            VoiceUiEvent::SceneTheme(theme) => {
                self.custom_theme = Some(theme);
                current_expansion_command
            },
            VoiceUiEvent::SceneBackground(background) => {
                self.custom_background = Some(background);
                current_expansion_command
            },
            VoiceUiEvent::AutomationActivity { label, source, tool } => {
                let clicked = on_island && automation_double_click_coords(
                    label.as_str(),
                ).is_some();
                let command = if clicked {
                    self.toggle(current_expansion_command, now)
                } else {
                    current_expansion_command
                };
                self.snapshot.apply(VoiceUiEvent::AutomationActivity { label, source, tool });
                command
            },
            event => {
                self.snapshot.apply(event);
                current_expansion_command
            },
        }
    }

    /// Opens or closes the island.
    pub fn set_expanded(&mut self, expanded: bool)
        ensures
            final(self)@ == (HudView { expanded, minimized: false, dragging: false, ..old(self)@ }),
    {
        self.expanded = expanded;
        self.minimized = false;
        self.dragging = false;
    }

    /// Opens the island if it is closed, and closes it if it is open.
    pub fn toggle_expanded(&mut self)
        ensures
            final(self)@ == (HudView {
                expanded: !old(self)@.expanded,
                minimized: false,
                dragging: false,
                ..old(self)@
            }),
    {
        let open = !self.expanded;
        self.set_expanded(open);
    }

    /// Whether the expanded island is to be drawn.
    pub fn shows_expanded(&self) -> (open: bool)
        ensures
            open == (self.expanded && !self.minimized),
    {
        self.expanded && !self.minimized
    }
}

/// Of two toggles in quick succession only the first counts.
pub proof fn lemma_quick_toggles_count_once(h: HudView, asked: Option<bool>, first: u128, second: u128)
    requires
        toggle_counts(h, first),
        span(first, second) < ISLAND_TOGGLE_GAP,
    ensures
        ({
            let after = after_toggle(h, asked, first);
            after_toggle(after.0, after.1, second) == after
        }),
{
}

/// A scene that was put in place stays until the scene is reset, whatever else
/// happens.
pub proof fn lemma_programmed_scene_stays(
    h: HudView,
    event: EventView,
    asked: Option<bool>,
    now: u128,
    on_island: bool,
)
    requires
        !(event is SceneSet),
        !(event is SceneReset),
    ensures
        hud_after(h, event, asked, now, on_island).0.custom_scene == h.custom_scene,
{
}

/// A minimized island is not expanded, whatever event made it so.
pub proof fn lemma_minimized_is_not_expanded(
    h: HudView,
    event: EventView,
    asked: Option<bool>,
    now: u128,
    on_island: bool,
)
    requires
        h.minimized ==> !h.expanded,
    ensures
        ({
            let after = hud_after(h, event, asked, now, on_island).0;
            after.minimized ==> !after.expanded
        }),
{
}

/// The scene that is drawn: the one that was put in place, or else the one made
/// from the snapshot, with the theme and the background that were set.
pub fn shown_scene(
    custom_scene: Option<IslandScene>,
    made: IslandScene,
    custom_theme: Option<IslandTheme>,
    custom_background: Option<IslandBackground>,
) -> (scene: IslandScene)
    ensures
        scene == ({
            let base = match custom_scene {
                Some(scene) => scene,
                None => made,
            };
            IslandScene {
                theme: match custom_theme {
                    Some(theme) => Some(theme),
                    None => base.theme,
                },
                background: match custom_background {
                    Some(background) => background,
                    None => base.background,
                },
                ..base
            }
        }),
{
    let mut scene = match custom_scene {
        Some(scene) => scene,
        None => made,
    };
    if let Some(theme) = custom_theme {
        scene.theme = Some(theme);
    }
    if let Some(background) = custom_background {
        scene.background = background;
    }
    scene
}

/// The words under the gauge of the task.
pub open spec fn caption(place: Option<(u16, u16)>, phase: HudPhase) -> Seq<char> {
    match place {
        Some((index, total)) => decimal(index as nat) + " / "@ + decimal(total as nat),
        None => if phase == HudPhase::Reply || phase == HudPhase::Error {
            "Holding"@
        } else {
            phase_label(phase)
        },
    }
}

/// The words under the gauge of the task.
pub fn gauge_caption(step_counter: Option<(u16, u16)>, phase: HudPhase) -> (text: String)
    ensures
        text@ == caption(step_counter, phase),
{
    match step_counter {
        Some((index, total)) => {
            let mut text = decimal_of(index as u64);
            text.append(" / ");
            text.append(decimal_of(total as u64).as_str());
            text
        },
        None => if phase == HudPhase::Reply || phase == HudPhase::Error {
            "Holding".to_owned()
        } else {
            phase.label().to_owned()
        },
    }
}

/// Whether the ring moves. With less motion it moves only to show a step.
pub fn ring_ambient_active(
    active: bool,
    step_counter: Option<(u16, u16)>,
    reduced_motion: bool,
) -> (moves: bool)
    ensures
        moves == (active && (!reduced_motion || step_counter is Some)),
{
    active && (!reduced_motion || step_counter.is_some())
}

/// Whether there is to be less motion: it was asked for, here or of the system.
pub fn resolve_reduced_motion(requested: bool, system_enabled: bool) -> (reduced: bool)
    ensures
        reduced == (requested || system_enabled),
{
    requested || system_enabled
}

/// How long a pattern of light takes.
pub open spec fn pattern_duration(speed: u8) -> int {
    let steps = if speed == 0 { 1int } else { speed as int };
    if 6_000int / steps < 250 {
        250
    } else {
        6_000int / steps
    }
}

/// How long a pattern of light takes, in milliseconds.
pub fn ambient_duration_ms(pattern: &IslandAmbientPattern) -> (ms: u16)
    ensures
        ms == pattern_duration(pattern.speed),
        250 <= ms <= 6_000,
{
    let steps: u16 = if pattern.speed == 0 {
        1
    } else {
        pattern.speed as u16
    };
    let ms: u16 = 6_000 / steps;
    assert(ms <= 6_000) by (nonlinear_arith)
        requires
            ms == 6_000u16 / steps,
            steps >= 1,
    ;
    if ms < 250 {
        250
    } else {
        ms
    }
}

/// The background that a scene has unless it is given another. The letters of
/// the colour may be of either case.
pub fn is_default_solid_background(color: &str, opacity: u8) -> (found: bool)
    ensures
        found == (opacity == 92 && lower(color@) == lower("#000000"@)),
{
    opacity == 92 && same_ignoring_case(color, "#000000")
}

/// The colours of a background whose lightness matters.
pub open spec fn colors_of(background: IslandBackground) -> Seq<Seq<char>> {
    match background {
        IslandBackground::Solid { color, .. } => seq![color@],
        IslandBackground::Transparent { .. } => Seq::empty(),
        IslandBackground::LinearGradient { stops, .. } => stop_colors(stops@),
        IslandBackground::AnimatedGradient { stops, .. } => stop_colors(stops@),
        IslandBackground::NeonSweep { base_color, sweep_color, .. } => seq![
            base_color@,
            sweep_color@,
        ],
    }
}

pub open spec fn stop_colors(stops: Seq<IslandColorStop>) -> Seq<Seq<char>> {
    Seq::new(stops.len(), |i: int| stops[i].color@)
}

fn list_stop_colors(stops: &Vec<IslandColorStop>) -> (colors: Vec<String>)
    ensures
        texts(colors@) == stop_colors(stops@),
{
    let mut colors: Vec<String> = Vec::new();
    let mut i: usize = 0;
    while i < stops.len()
        invariant
            i <= stops@.len(),
            colors@.len() == i,
            forall|j: int| 0 <= j < i ==> (#[trigger] colors@[j])@ == stops@[j].color@,
        decreases stops@.len() - i,
    {
        colors.push(stops[i].color.clone());
        i = i + 1;
    }
    assert(texts(colors@) =~= stop_colors(stops@));
    colors
}

/// The colours of a background whose lightness matters.
pub fn background_colors(background: &IslandBackground) -> (colors: Vec<String>)
    ensures
        texts(colors@) == colors_of(*background),
{
    match background {
        IslandBackground::Solid { color, .. } => {
            let colors = vec![color.clone()];
            assert(texts(colors@) =~= seq![color@]);
            colors
        },
        IslandBackground::Transparent { .. } => {
            let colors: Vec<String> = Vec::new();
            assert(texts(colors@) =~= Seq::<Seq<char>>::empty());
            colors
        },
        IslandBackground::LinearGradient { stops, .. } => list_stop_colors(stops),
        IslandBackground::AnimatedGradient { stops, .. } => list_stop_colors(stops),
        IslandBackground::NeonSweep { base_color, sweep_color, .. } => {
            let colors = vec![base_color.clone(), sweep_color.clone()];
            assert(texts(colors@) =~= seq![base_color@, sweep_color@]);
            colors
        },
    }
}

/// How dark the layer between a background and the text is, in hundredths.
/// `light` tells whether one of the background's colours is light.
pub open spec fn scrim(background: IslandBackground, light: bool) -> u8 {
    match background {
        IslandBackground::Solid { color, opacity } => if opacity == 92 && lower(color@) == lower(
            "#000000"@,
        ) {
            0
        } else if opacity < 75 || light {
            82
        } else {
            34
        },
        IslandBackground::Transparent { opacity } => if opacity >= 90 {
            0
        } else {
            78
        },
        IslandBackground::LinearGradient { opacity, .. } => if opacity < 80 || light {
            82
        } else {
            38
        },
        IslandBackground::AnimatedGradient { opacity, .. } => if opacity < 80 || light {
            82
        } else {
            38
        },
        IslandBackground::NeonSweep { opacity, .. } => if opacity < 80 || light {
            74
        } else {
            34
        },
    }
}

/// How dark the layer between a background and the text is, in hundredths.
pub fn background_contrast_scrim_percent(background: &IslandBackground, light: bool) -> (percent: u8)
    ensures
        percent == scrim(*background, light),
{
    match background {
        IslandBackground::Solid { color, opacity } => if is_default_solid_background(
            color.as_str(),
            *opacity,
        ) {
            0
        } else if *opacity < 75 || light {
            82
        } else {
            34
        },
        IslandBackground::Transparent { opacity } => if *opacity >= 90 {
            0
        } else {
            78
        },
        IslandBackground::LinearGradient { opacity, .. } => if *opacity < 80 || light {
            82
        } else {
            38
        },
        IslandBackground::AnimatedGradient { opacity, .. } => if *opacity < 80 || light {
            82
        } else {
            38
        },
        IslandBackground::NeonSweep { opacity, .. } => if *opacity < 80 || light {
            74
        } else {
            34
        },
    }
}

/// Text on a light background always has a dark layer behind it; the default
/// background has none.
pub proof fn lemma_light_backgrounds_are_dimmed(background: IslandBackground)
    ensures
        !(background is Transparent) && !(background matches IslandBackground::Solid {
            color,
            opacity,
        } && opacity == 92 && lower(color@) == lower("#000000"@)) ==> scrim(background, true) >= 74,
        scrim(background, true) >= scrim(background, false),
{
}

/// The two colours between which a moving gradient is, from the one at `head`
/// on. After the last colour comes the first.
pub fn animated_gradient_pair(stops: &Vec<IslandColorStop>, head: usize) -> (pair: Option<
    (&IslandColorStop, &IslandColorStop),
>)
    ensures
        match pair {
            Some((from, to)) => {
                let count = stops@.len() as int;
                &&& count >= 2
                &&& *from == stops@[head as int % count]
                &&& *to == stops@[(head as int % count + 1) % count]
            },
            None => stops@.len() < 2,
        },
{
    if stops.len() < 2 {
        return None;
    }
    let from: usize = head % stops.len();
    let to: usize = if from + 1 == stops.len() {
        0
    } else {
        from + 1
    };
    proof {
        let count = stops@.len() as int;
        if from + 1 == count {
            assert((from as int + 1) % count == 0);
        } else {
            vstd::arithmetic::div_mod::lemma_small_mod((from + 1) as nat, count as nat);
        }
    }
    Some((&stops[from], &stops[to]))
}

/// Whether the snapshot is put back after a reply: its time is over, and
/// nothing of it is to be seen any more.
pub fn should_reset_after_reply_collapse(reply_window_expired: bool, invisible: bool) -> (reset: bool)
    ensures
        reset == (reply_window_expired && invisible),
{
    reply_window_expired && invisible
}

/// What a hexadecimal digit stands for.
pub open spec fn hex_digit(c: char) -> Option<nat> {
    if '0' <= c && c <= '9' {
        Some((c as u32 - '0' as u32) as nat)
    } else if 'a' <= c && c <= 'f' {
        Some((c as u32 - 'a' as u32 + 10) as nat)
    } else if 'A' <= c && c <= 'F' {
        Some((c as u32 - 'A' as u32 + 10) as nat)
    } else {
        None
    }
}

/// What hexadecimal digits stand for.
pub open spec fn hex_value(s: Seq<char>) -> Option<nat>
    decreases s.len(),
{
    if s.len() == 0 {
        Some(0)
    } else {
        match (hex_value(s.drop_last()), hex_digit(s.last())) {
            (Some(high), Some(low)) => Some(high * 16 + low),
            _ => None,
        }
    }
}

/// The colour that a text writes: a hash mark and six hexadecimal digits.
pub open spec fn color_value(hex: Seq<char>) -> Option<nat> {
    if hex.len() == 7 && hex[0] == '#' {
        hex_value(hex.skip(1))
    } else {
        None
    }
}

fn hex_digit_of(c: char) -> (digit: Option<u32>)
    ensures
        match digit {
            Some(d) => d < 16 && hex_digit(c) == Some(d as nat),
            None => hex_digit(c) is None,
        },
{
    if '0' <= c && c <= '9' {
        Some((c as u32) - 48)
    } else if 'a' <= c && c <= 'f' {
        Some((c as u32) - 97 + 10)
    } else if 'A' <= c && c <= 'F' {
        Some((c as u32) - 65 + 10)
    } else {
        None
    }
}

proof fn lemma_hex_prefix(s: Seq<char>, n: int)
    requires
        0 <= n <= s.len(),
        hex_value(s.take(n)) is None,
    ensures
        hex_value(s) is None,
    decreases s.len(),
{
    if n == s.len() {
        assert(s.take(n) =~= s);
    } else {
        assert(s.drop_last().take(n) =~= s.take(n));
        lemma_hex_prefix(s.drop_last(), n);
    }
}

/// The colour that a text writes, if it writes one.
pub fn parse_hex_color(hex: &str) -> (color: Option<u32>)
    ensures
        match color {
            Some(color) => color_value(hex@) == Some(color as nat),
            None => color_value(hex@) is None,
        },
{
    let chars = chars_of(hex);
    if chars.len() != 7 || chars[0] != '#' {
        return None;
    }
    let ghost digits = hex@.skip(1);
    let mut value: u32 = 0;
    let mut i: usize = 1;
    assert(digits.take(0).len() == 0);
    while i < 7
        invariant
            1 <= i <= 7,
            chars@ == hex@,
            chars@.len() == 7,
            chars@[0] == '#',
            digits == hex@.skip(1),
            hex_value(digits.take(i - 1)) == Some(value as nat),
            i == 1 ==> value == 0,
            i == 2 ==> value < 0x10,
            i == 3 ==> value < 0x100,
            i == 4 ==> value < 0x1000,
            i == 5 ==> value < 0x1_0000,
            i == 6 ==> value < 0x10_0000,
            i == 7 ==> value < 0x100_0000,
        decreases 7 - i,
    {
        assert(digits.take(i as int).drop_last() =~= digits.take(i - 1));
        assert(digits.take(i as int).last() == chars@[i as int]);
        match hex_digit_of(chars[i]) {
            Some(digit) => {
                value = value * 16 + digit;
            },
            None => {
                proof {
                    lemma_hex_prefix(digits, i as int);
                }
                return None;
            },
        }
        i = i + 1;
    }
    assert(digits.take(6) =~= digits);
    Some(value)
}

spec fn sixteen_to(n: nat) -> nat
    decreases n,
{
    if n == 0 {
        1
    } else {
        16 * sixteen_to((n - 1) as nat)
    }
}

proof fn lemma_hex_bound(s: Seq<char>)
    ensures
        hex_value(s) matches Some(value) ==> value < sixteen_to(s.len()),
    decreases s.len(),
{
    if s.len() > 0 {
        lemma_hex_bound(s.drop_last());
    }
}

/// A colour has no more than twenty-four bits.
pub proof fn lemma_color_fits(hex: Seq<char>)
    ensures
        color_value(hex) matches Some(color) ==> color < 0x100_0000,
{
    lemma_hex_bound(hex.skip(1));
    reveal_with_fuel(sixteen_to, 7);
}

/// A toggle that counts asks for the opposite of what is asked for or shown, and
/// two that are far enough apart ask for what was there.
pub proof fn lemma_toggle_turns_over(h: HudView, asked: Option<bool>, first: u128, second: u128)
    ensures
        h.last_island_toggle_at is None ==> after_toggle(h, None, first).1 == Some(!h.expanded),
        h.last_island_toggle_at is None ==> (asked matches Some(open) ==> after_toggle(
            h,
            asked,
            first,
        ).1 == Some(!open)),
        h.last_island_toggle_at matches Some(last) && first >= last + 260_000_000 ==> after_toggle(
            h,
            None,
            first,
        ).1 == Some(!h.expanded),
        h.last_island_toggle_at matches Some(last) && first < last + 260_000_000 ==> after_toggle(
            h,
            asked,
            first,
        ) == (h, asked),
        h.last_island_toggle_at is None && second >= first + 260_000_000 ==> ({
            let once = after_toggle(h, None, first);
            after_toggle(once.0, once.1, second).1 == Some(h.expanded)
        }),
        after_toggle(h, asked, first).0.expanded == h.expanded,
        after_toggle(h, asked, first).0.snapshot == h.snapshot,
{
}

/// What an event asks of the island: a toggle turns it over, an explicit wish is
/// taken, a scene opens it by its layout, to minimize it closes it, and other
/// events leave what is asked as it is.
pub proof fn lemma_event_opens_the_island(
    h: HudView,
    event: EventView,
    asked: Option<bool>,
    now: u128,
    open: bool,
)
    ensures
        hud_after(h, EventView::SetExpanded(open), asked, now, false) == (h, Some(open)),
        hud_after(h, EventView::ToggleExpanded, asked, now, false) == after_toggle(h, asked, now),
        hud_after(h, EventView::SetMinimized(true), asked, now, false).0.minimized,
        !hud_after(h, EventView::SetMinimized(true), asked, now, false).0.expanded,
        !hud_after(h, EventView::SetMinimized(false), asked, now, false).0.minimized,
        hud_after(h, EventView::SetMinimized(false), asked, now, false).0.expanded == h.expanded,
        event matches EventView::SceneSet(scene) ==> hud_after(h, event, asked, now, false).1
            == Some(scene.layout == IslandLayout::Expanded) && hud_after(
            h,
            event,
            asked,
            now,
            false,
        ).0.custom_scene == Some(scene),
        event is SceneReset ==> hud_after(h, event, asked, now, false).0.custom_scene is None
            && hud_after(h, event, asked, now, false).0.custom_theme is None && hud_after(
            h,
            event,
            asked,
            now,
            false,
        ).0.custom_background is None,
        event matches EventView::SceneTheme(theme) ==> hud_after(h, event, asked, now, false).0
            == (HudView { custom_theme: Some(theme), ..h }),
        event matches EventView::SceneBackground(background) ==> hud_after(
            h,
            event,
            asked,
            now,
            false,
        ).0 == (HudView { custom_background: Some(background), ..h }),
        !(event is ToggleExpanded || event is SetExpanded || event is SetMinimized
            || event is SceneSet || event is SceneReset || event is SceneTheme
            || event is SceneBackground) ==> hud_after(h, event, asked, now, false) == (
            HudView { snapshot: after_event(h.snapshot, event), ..h },
            asked,
        ),
{
}

/// A double click on the island toggles it and is shown; off the island, and for
/// any other label, it is only shown.
pub proof fn lemma_double_click_toggles(
    h: HudView,
    label: Seq<char>,
    asked: Option<bool>,
    now: u128,
)
    ensures
        ({
            let event = EventView::AutomationActivity { label, source: None, tool: None };
            &&& double_click(label) is Some ==> hud_after(h, event, asked, now, true).1
                == after_toggle(h, asked, now).1
            &&& double_click(label) is None ==> hud_after(h, event, asked, now, true).1 == asked
            &&& hud_after(h, event, asked, now, false).1 == asked
            &&& hud_after(h, event, asked, now, true).0.snapshot == after_event(h.snapshot, event)
        }),
{
}

/// The label of a click at a place with a count of two or more is a double click
/// at that place; with a count below two, or without one, it is none.
pub proof fn lemma_double_click_is_read(x: Seq<char>, y: Seq<char>, count: nat)
    requires
        all_digits(x) && x.len() > 0,
        all_digits(y) && y.len() > 0,
        count <= 255,
    ensures
        count >= 2 ==> double_click("Left mouse click at "@ + x + ","@ + y + " x"@ + decimal(count))
            == Some((x, y)),
        count < 2 ==> double_click("Left mouse click at "@ + x + ","@ + y + " x"@ + decimal(count))
            is None,
{
    let start = "Left mouse click at "@;
    let place = x + ","@ + y;
    let head = start + place;
    let digits = decimal(count);
    let label = "Left mouse click at "@ + x + ","@ + y + " x"@ + decimal(count);
    reveal_strlit("Left mouse click at ");
    reveal_strlit(",");
    reveal_strlit(" x");
    lemma_number_is_read_back(count, u8::MAX as nat);
    assert(label =~= head + " x"@ + digits);
    assert(is_digit(digits[digits.len() - 1]));
    assert(label.last() == digits[digits.len() - 1]);
    assert(label[0] == 'L');
    assert(Seq::<char>::empty() + label + Seq::<char>::empty() =~= label);
    lemma_trimmed_is_the_core(Seq::empty(), label, Seq::empty());
    let at = head.len() as int;
    assert(label.subrange(at, at + 2) =~= " x"@);
    assert(last_at(label, " x"@, at)) by {
        assert forall|later: int| at < later implies !occurs_at(label, " x"@, later) by {
            if occurs_at(label, " x"@, later) {
                let seen = label.subrange(later, later + 2);
                assert(seen[1] == 'x' && seen[0] == ' ');
                assert(label[later + 1] == seen[1] && label[later] == seen[0]);
                if later >= at + 2 {
                    assert(label[later] == digits[later - at - 2]);
                    assert(is_digit(digits[later - at - 2]));
                } else {
                    assert(later == at + 1);
                    assert(label[at + 1] == 'x');
                }
            }
        }
    }
    lemma_last_position(label, " x"@, at);
    assert(label.take(at) =~= head);
    assert(label.skip(at + 2) =~= digits);
    assert(head.subrange(0, start.len() as int) =~= start);
    assert(head.skip(start.len() as int) =~= place);
    let comma = x.len() as int;
    assert(place.subrange(comma, comma + 1) =~= ","@);
    assert(first_at(place, ","@, comma)) by {
        assert forall|earlier: int| earlier < comma implies !occurs_at(place, ","@, earlier) by {
            if occurs_at(place, ","@, earlier) {
                assert(place.subrange(earlier, earlier + 1)[0] == ',');
                assert(place[earlier] == x[earlier]);
                assert(is_digit(x[earlier]));
            }
        }
    }
    lemma_first_position(place, ","@, comma);
    assert(place.take(comma) =~= x);
    assert(place.skip(comma + 1) =~= y);
    assert(Seq::<char>::empty() + x + Seq::<char>::empty() =~= x);
    assert(Seq::<char>::empty() + y + Seq::<char>::empty() =~= y);
    assert(is_digit(x[0]) && is_digit(x[x.len() - 1]) && is_digit(y[0]) && is_digit(y[y.len() - 1]));
    lemma_trimmed_is_the_core(Seq::empty(), x, Seq::empty());
    lemma_trimmed_is_the_core(Seq::empty(), y, Seq::empty());
}

/// A caption tells the place of a counted step, and else the phase; a reply and an
/// error are held.
pub proof fn lemma_caption_tells_the_place(index: u16, total: u16, phase: HudPhase)
    ensures
        caption(Some((index, total)), phase) == decimal(index as nat) + " / "@ + decimal(
            total as nat,
        ),
        phase == HudPhase::Reply || phase == HudPhase::Error ==> caption(None, phase) == "Holding"@,
        phase != HudPhase::Reply && phase != HudPhase::Error ==> caption(None, phase)
            == phase_label(phase),
{
}

/// A pattern that is faster takes less time, a quarter of a second at least and
/// six seconds at most.
pub proof fn lemma_faster_pattern_takes_less(speed: u8, faster: u8)
    requires
        speed <= faster,
    ensures
        pattern_duration(faster) <= pattern_duration(speed),
        250 <= pattern_duration(speed) <= 6_000,
        pattern_duration(1) == 6_000,
        pattern_duration(0) == 6_000,
        speed > 0 && 6_000int / speed as int >= 250 ==> pattern_duration(speed) == 6_000int
            / speed as int,
{
    let a: int = if speed == 0 {
        1
    } else {
        speed as int
    };
    let b: int = if faster == 0 {
        1
    } else {
        faster as int
    };
    assert(6_000int / 1 == 6_000);
    assert(6_000int / b <= 6_000int / a) by (nonlinear_arith)
        requires
            1 <= a <= b,
    ;
    assert(6_000int / a <= 6_000) by (nonlinear_arith)
        requires
            1 <= a,
    ;
}

/// A color is written with a number sign and six hexadecimal digits, two each for
/// red, green and blue, in capitals or not; anything else is no color.
pub proof fn lemma_color_is_read(hex: Seq<char>)
    ensures
        hex.len() != 7 ==> color_value(hex) is None,
        hex.len() == 7 && hex[0] != '#' ==> color_value(hex) is None,
        hex.len() == 7 && hex[0] == '#' && (exists|i: int|
            1 <= i < 7 && hex_digit(#[trigger] hex[i]) is None) ==> color_value(hex) is None,
        hex.len() == 7 && hex[0] == '#' && (forall|i: int|
            1 <= i < 7 ==> hex_digit(#[trigger] hex[i]) is Some) ==> color_value(hex) == Some(
            ((((hex_digit(hex[1])->0 * 16 + hex_digit(hex[2])->0) * 16 + hex_digit(hex[3])->0) * 16
                + hex_digit(hex[4])->0) * 16 + hex_digit(hex[5])->0) * 16 + hex_digit(hex[6])->0,
        ),
{
    if hex.len() == 7 && hex[0] == '#' {
        let s = hex.skip(1);
        reveal_with_fuel(hex_value, 8);
        let s5 = s.drop_last();
        let s4 = s5.drop_last();
        let s3 = s4.drop_last();
        let s2 = s3.drop_last();
        let s1 = s2.drop_last();
        let s0 = s1.drop_last();
        assert(s0.len() == 0);
        assert(s.last() == hex[6] && s5.last() == hex[5] && s4.last() == hex[4] && s3.last()
            == hex[3] && s2.last() == hex[2] && s1.last() == hex[1]);
        assert(hex_value(s0) == Some(0nat));
        assert(hex_digit(hex[1]) is Some ==> hex_value(s1) == hex_digit(hex[1]));
    }
}

/// A hexadecimal digit has the value of its place, in capitals or not.
pub proof fn lemma_hex_digit_has_its_value(c: char)
    ensures
        '0' <= c <= '9' ==> hex_digit(c) == Some((c as int - '0' as int) as nat),
        'a' <= c <= 'f' ==> hex_digit(c) == Some((c as int - 'a' as int + 10) as nat),
        'A' <= c <= 'F' ==> hex_digit(c) == Some((c as int - 'A' as int + 10) as nat),
        !('0' <= c <= '9' || 'a' <= c <= 'f' || 'A' <= c <= 'F') ==> hex_digit(c) is None,
{
}

/// The darker the veil that keeps text readable, the lighter or the more
/// transparent the background; the plain one has none.
pub proof fn lemma_veil_keeps_text_readable(background: IslandBackground, light: bool)
    ensures
        background matches IslandBackground::Solid { color, opacity } && color@ == "#000000"@
            && opacity == 92 ==> scrim(background, light) == 0,
        background matches IslandBackground::Transparent { opacity } ==> (scrim(background, light)
            == 0 <==> opacity >= 90),
        background matches IslandBackground::LinearGradient { opacity, .. } && opacity < 80
            ==> scrim(background, light) == scrim(background, true),
        background matches IslandBackground::AnimatedGradient { opacity, .. } && opacity < 80
            ==> scrim(background, light) == scrim(background, true),
        background matches IslandBackground::NeonSweep { opacity, .. } && opacity < 80 ==> scrim(
            background,
            light,
        ) == scrim(background, true),
        !(background is Transparent) && scrim(background, light) > 0 ==> 34 <= scrim(
            background,
            light,
        ) <= 82,
{
}

/// How dark the veil is over a background that is light or lets much through, and
/// over one that is neither.
pub proof fn lemma_veil_has_its_darkness(background: IslandBackground, light: bool)
    ensures
        background matches IslandBackground::Solid { color, opacity } ==> (!(opacity == 92 && lower(
            color@,
        ) == lower("#000000"@)) ==> scrim(background, light) == (if opacity < 75 || light {
            82u8
        } else {
            34u8
        })),
        background matches IslandBackground::Transparent { opacity } ==> scrim(background, light)
            == (if opacity >= 90 {
            0u8
        } else {
            78u8
        }),
        background matches IslandBackground::LinearGradient { opacity, .. } ==> scrim(
            background,
            light,
        ) == (if opacity < 80 || light {
            82u8
        } else {
            38u8
        }),
        background matches IslandBackground::AnimatedGradient { opacity, .. } ==> scrim(
            background,
            light,
        ) == (if opacity < 80 || light {
            82u8
        } else {
            38u8
        }),
        background matches IslandBackground::NeonSweep { opacity, .. } ==> scrim(background, light)
            == (if opacity < 80 || light {
            74u8
        } else {
            34u8
        }),
{
}

} // verus!
