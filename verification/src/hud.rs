//! The island's texts and scenes, from a snapshot.

use vstd::prelude::*;

use crate::scene::{
    fills_expanded, find_item, item_views, named_item, place_of, region_items, region_views,
    row_value, scene_dots, scene_rows, shown_text, text_in_either, tool_rows, DotChaseScene,
    IslandBackground, IslandItem, IslandLayout, IslandPalette, IslandRegion, IslandScene,
    IslandTheme, ItemView, ToolRowView, ISLAND_SCHEMA_VERSION,
};
use crate::spacing::{is_tidy, lemma_squeezed_is_tidy, lemma_tidy_stays};
use crate::text::{
    all_digits, char_count, contains, decimal, decimal_of, digit_char, digits_value, first_chars,
    has_text, is_blank, is_white, lemma_number_is_read_back, squeeze, squeezed, trimmed,
};
use crate::ui_state::{phase_label, HudPhase, HudSnapshot, SnapshotView};

verus! {

/// The words of `value`, cut after `limit` characters; three dots then follow.
pub open spec fn label_of(value: Seq<char>, limit: nat) -> Seq<char> {
    let line = squeezed(value);
    if line.len() <= limit {
        line
    } else {
        line.take(limit as int) + "..."@
    }
}

/// The words of `value`, cut after `max_chars` characters; three dots then
/// follow.
pub fn compact_label(value: &str, max_chars: usize) -> (label: String)
    ensures
        label@ == label_of(value@, max_chars as nat),
{
    let line = squeeze(value);
    if char_count(line.as_str()) <= max_chars {
        return line;
    }
    let mut label = first_chars(line.as_str(), max_chars);
    label.append("...");
    label
}

/// A label never has more than three characters over its limit.
pub proof fn lemma_label_is_bounded(value: Seq<char>, limit: nat)
    ensures
        label_of(value, limit).len() <= limit + 3,
{
    reveal_strlit("...");
}

/// To shorten a label that was shortened changes nothing.
pub proof fn lemma_label_is_shortened_once(value: Seq<char>, limit: nat)
    ensures
        label_of(label_of(value, limit), limit) == label_of(value, limit),
{
    let line = squeezed(value);
    let label = label_of(value, limit);
    lemma_squeezed_is_tidy(value);
    if line.len() > limit {
        reveal_strlit("...");
        assert forall|i: int| 0 <= i < label.len() && is_white(#[trigger] label[i]) implies label[i]
            == ' ' && !is_white(label[i + 1]) by {
            assert(label[i] == line[i]);
        }
        assert(is_tidy(label));
        lemma_tidy_stays(label);
        assert(label.take(limit as int) =~= line.take(limit as int));
    }
}

/// The short name of a tool.
pub open spec fn tool_name(tool: Seq<char>) -> Seq<char> {
    if has_text(tool, "Unix"@) || has_text(tool, "socket"@) {
        "Socket"@
    } else if has_text(tool, "HTTP"@) {
        "HTTP"@
    } else if has_text(tool, "OpenRouter"@) {
        "Router"@
    } else if has_text(tool, "Whisper"@) || has_text(tool, "STT"@) {
        "STT"@
    } else if has_text(tool, "Microphone"@) {
        "Mic"@
    } else if has_text(tool, "Screen"@) || has_text(tool, "Capture"@) {
        "Screen"@
    } else {
        tool
    }
}

/// The short name of a tool.
pub fn short_tool(tool: &str) -> (name: String)
    ensures
        name@ == tool_name(tool@),
{
    if contains(tool, "Unix") || contains(tool, "socket") {
        "Socket".to_owned()
    } else if contains(tool, "HTTP") {
        "HTTP".to_owned()
    } else if contains(tool, "OpenRouter") {
        "Router".to_owned()
    } else if contains(tool, "Whisper") || contains(tool, "STT") {
        "STT".to_owned()
    } else if contains(tool, "Microphone") {
        "Mic".to_owned()
    } else if contains(tool, "Screen") || contains(tool, "Capture") {
        "Screen".to_owned()
    } else {
        tool.to_owned()
    }
}

/// The microphone is in use, or was a moment ago.
pub open spec fn hears(phase: HudPhase) -> bool {
    phase == HudPhase::Listening || phase == HudPhase::RecordingStopped || phase
        == HudPhase::Accepted
}

fn is_hearing(phase: HudPhase) -> (found: bool)
    ensures
        found == hears(phase),
{
    match phase {
        HudPhase::Listening | HudPhase::RecordingStopped | HudPhase::Accepted => true,
        _ => false,
    }
}

/// What the agent works through.
pub open spec fn transport(s: SnapshotView) -> Seq<char> {
    if hears(s.phase) {
        "Mic"@
    } else if s.phase == HudPhase::Planning && has_text(s.tool, "OpenRouter"@) {
        "Router"@
    } else {
        tool_name(s.tool)
    }
}

/// What the agent works through.
pub fn live_transport_label(snapshot: &HudSnapshot) -> (label: String)
    ensures
        label@ == transport(snapshot@),
{
    if is_hearing(snapshot.phase) {
        return "Mic".to_owned();
    }
    if snapshot.phase == HudPhase::Planning && contains(snapshot.tool.as_str(), "OpenRouter") {
        return "Router".to_owned();
    }
    short_tool(snapshot.tool.as_str())
}

/// What the agent works on.
pub open spec fn target(s: SnapshotView) -> Seq<char> {
    if has_text(s.tool, "Screen"@) || has_text(s.tool, "Capture"@) {
        "Screen"@
    } else if has_text(s.tool, "Microphone"@) || hears(s.phase) {
        "Microphone"@
    } else if has_text(s.tool, "Safari"@) {
        "Safari"@
    } else if has_text(s.tool, "Terminal"@) {
        "Terminal"@
    } else if has_text(s.tool, "Finder"@) {
        "Finder"@
    } else if has_text(s.tool, "Unix"@) || has_text(s.tool, "socket"@) || has_text(s.tool, "Mouse"@)
        || has_text(s.tool, "Keyboard"@) {
        "macOS"@
    } else {
        match s.phase {
            HudPhase::Transcribing => "STT"@,
            HudPhase::Planning => "Model"@,
            HudPhase::Reply => "Result"@,
            _ => "macOS"@,
        }
    }
}

/// What the agent works on.
pub fn live_target_label(snapshot: &HudSnapshot) -> (label: String)
    ensures
        label@ == target(snapshot@),
{
    let tool = snapshot.tool.as_str();
    if contains(tool, "Screen") || contains(tool, "Capture") {
        return "Screen".to_owned();
    }
    if contains(tool, "Microphone") || is_hearing(snapshot.phase) {
        return "Microphone".to_owned();
    }
    if contains(tool, "Safari") {
        return "Safari".to_owned();
    }
    if contains(tool, "Terminal") {
        return "Terminal".to_owned();
    }
    if contains(tool, "Finder") {
        return "Finder".to_owned();
    }
    if contains(tool, "Unix") || contains(tool, "socket") || contains(tool, "Mouse") || contains(
        tool,
        "Keyboard",
    ) {
        return "macOS".to_owned();
    }
    match snapshot.phase {
        HudPhase::Transcribing => "STT".to_owned(),
        HudPhase::Planning => "Model".to_owned(),
        HudPhase::Reply => "Result".to_owned(),
        _ => "macOS".to_owned(),
    }
}

/// One of the two rows under a turn.
#[derive(Clone, Debug, PartialEq, Eq)]
pub struct HudRow {
    pub label: String,
    pub tool: String,
    pub app: String,
    pub age: String,
}

impl View for HudRow {
    type V = ToolRowView;

    open spec fn view(&self) -> ToolRowView {
        ToolRowView { label: self.label@, tool: self.tool@, app: self.app@, age: self.age@ }
    }
}

/// The row on what was heard.
pub open spec fn heard_row(s: SnapshotView) -> ToolRowView {
    ToolRowView {
        label: match s.transcript {
            Some(transcript) => label_of(transcript, 36),
            None => "listening for voice"@,
        },
        tool: if hears(s.phase) {
            "Mic"@
        } else if s.phase == HudPhase::Transcribing {
            "STT"@
        } else {
            tool_name(s.tool)
        },
        app: phase_label(s.phase),
        age: "now"@,
    }
}

/// The row on what is done about it.
pub open spec fn done_row(s: SnapshotView) -> ToolRowView {
    ToolRowView {
        label: match s.response {
            Some(response) => label_of(response, 36),
            None => label_of(s.step.label, 36),
        },
        tool: tool_name(s.tool),
        app: if has_text(s.tool, "Unix"@) || has_text(s.tool, "socket"@) {
            "macOS"@
        } else {
            target(s)
        },
        age: if s.response is Some {
            "done"@
        } else {
            "live"@
        },
    }
}

/// The two rows under a turn.
pub fn action_rows(snapshot: &HudSnapshot) -> (rows: [HudRow; 2])
    ensures
        rows@[0]@ == heard_row(snapshot@),
        rows@[1]@ == done_row(snapshot@),
{
    let heard = match &snapshot.transcript {
        Some(transcript) => compact_label(transcript.as_str(), 36),
        None => "listening for voice".to_owned(),
    };
    let done = match &snapshot.response {
        Some(response) => compact_label(response.as_str(), 36),
        None => compact_label(snapshot.step.label.as_str(), 36),
    };
    let tool = snapshot.tool.as_str();
    let first = HudRow {
        label: heard,
        tool: if is_hearing(snapshot.phase) {
            "Mic".to_owned()
        } else if snapshot.phase == HudPhase::Transcribing {
            "STT".to_owned()
        } else {
            short_tool(tool)
        },
        app: snapshot.phase.label().to_owned(),
        age: "now".to_owned(),
    };
    let second = HudRow {
        label: done,
        tool: short_tool(tool),
        app: if contains(tool, "Unix") || contains(tool, "socket") {
            "macOS".to_owned()
        } else {
            live_target_label(snapshot)
        },
        age: if snapshot.response.is_some() {
            "done".to_owned()
        } else {
            "live".to_owned()
        },
    };
    [first, second]
}

/// The texts of the island.
#[derive(Clone, Debug, PartialEq, Eq)]
pub struct HudDisplay {
    pub title: String,
    pub prompt: String,
    pub result: String,
    pub phase: &'static str,
    pub tool: String,
    pub target: String,
    pub rows: [HudRow; 2],
}

#[verifier::ext_equal]
pub struct DisplayView {
    pub title: Seq<char>,
    pub prompt: Seq<char>,
    pub result: Seq<char>,
    pub phase: Seq<char>,
    pub tool: Seq<char>,
    pub target: Seq<char>,
    pub first: ToolRowView,
    pub second: ToolRowView,
}

impl View for HudDisplay {
    type V = DisplayView;

    open spec fn view(&self) -> DisplayView {
        DisplayView {
            title: self.title@,
            prompt: self.prompt@,
            result: self.result@,
            phase: self.phase@,
            tool: self.tool@,
            target: self.target@,
            first: self.rows@[0]@,
            second: self.rows@[1]@,
        }
    }
}

/// The texts of the island. The reply comes before what was heard, and that
/// before the step.
pub open spec fn display_of(s: SnapshotView) -> DisplayView {
    DisplayView {
        title: match (s.response, s.transcript) {
            (Some(response), _) => label_of(response, 34),
            (None, Some(transcript)) => label_of(transcript, 34),
            (None, None) => s.input_label,
        },
        prompt: match s.transcript {
            Some(transcript) => transcript,
            None => s.step.label,
        },
        result: match (s.response, s.transcript) {
            (Some(response), _) => response,
            (None, Some(transcript)) => transcript,
            (None, None) => s.step.label,
        },
        phase: phase_label(s.phase),
        tool: transport(s),
        target: target(s),
        first: heard_row(s),
        second: done_row(s),
    }
}

impl HudDisplay {
    /// The texts of the island.
    pub fn from_snapshot(snapshot: &HudSnapshot) -> (display: HudDisplay)
        ensures
            display@ == display_of(snapshot@),
    {
        let prompt = match &snapshot.transcript {
            Some(transcript) => transcript.clone(),
            None => snapshot.step.label.clone(),
        };
        let result = match (&snapshot.response, &snapshot.transcript) {
            (Some(response), _) => response.clone(),
            (None, Some(transcript)) => transcript.clone(),
            (None, None) => snapshot.step.label.clone(),
        };
        let title = match (&snapshot.response, &snapshot.transcript) {
            (Some(response), _) => compact_label(response.as_str(), 34),
            (None, Some(transcript)) => compact_label(transcript.as_str(), 34),
            (None, None) => snapshot.input_label.clone(),
        };
        HudDisplay {
            title,
            prompt,
            result,
            phase: snapshot.phase.label(),
            tool: live_transport_label(snapshot),
            target: live_target_label(snapshot),
            rows: action_rows(snapshot),
        }
    }
}

/// The status in the middle of the bar.
pub open spec fn status_text(s: SnapshotView, d: DisplayView, reply_visible: bool) -> Seq<char> {
    if reply_visible {
        d.result
    } else {
        match s.phase {
            HudPhase::Idle => s.step.label,
            HudPhase::Listening => "Listening"@,
            HudPhase::RecordingStopped => "Recording Stopped"@,
            HudPhase::Transcribing => "Processing"@,
            HudPhase::Accepted => "Accepted"@,
            _ => match s.step.place() {
                Some((index, total)) => "Step "@ + decimal(index as nat) + "/"@ + decimal(
                    total as nat,
                ) + "   "@ + s.step.label,
                None => s.step.label,
            },
        }
    }
}

/// The status in the middle of the bar.
pub fn center_status_text(snapshot: &HudSnapshot, display: &HudDisplay, reply_visible: bool) -> (text:
    String)
    ensures
        text@ == status_text(snapshot@, display@, reply_visible),
{
    if reply_visible {
        return display.result.clone();
    }
    match snapshot.phase {
        HudPhase::Idle => snapshot.step.label.clone(),
        HudPhase::Listening => "Listening".to_owned(),
        HudPhase::RecordingStopped => "Recording Stopped".to_owned(),
        HudPhase::Transcribing => "Processing".to_owned(),
        HudPhase::Accepted => "Accepted".to_owned(),
        _ => match snapshot.step.counter() {
            Some((index, total)) => {
                let mut text = "Step ".to_owned();
                text.append(decimal_of(index as u64).as_str());
                text.append("/");
                text.append(decimal_of(total as u64).as_str());
                text.append("   ");
                text.append(snapshot.step.label.as_str());
                text
            },
            None => snapshot.step.label.clone(),
        },
    }
}

/// Whether the activity dots run.
pub fn dots_are_active(snapshot: &HudSnapshot) -> (active: bool)
    ensures
        active == (snapshot.phase != HudPhase::Idle),
{
    match snapshot.phase {
        HudPhase::Idle => false,
        _ => true,
    }
}

/// How fast the activity dots run in a phase.
pub open spec fn dot_speed(phase: HudPhase) -> u8 {
    match phase {
        HudPhase::Listening | HudPhase::RecordingStopped | HudPhase::Dispatching => 8,
        HudPhase::Accepted | HudPhase::Planning | HudPhase::Transcribing => 6,
        HudPhase::Reply => 5,
        HudPhase::Error => 10,
        HudPhase::Armed => 7,
        HudPhase::Idle => 0,
    }
}

/// How fast the activity dots run.
pub fn dot_chase_speed(snapshot: &HudSnapshot) -> (speed: u8)
    ensures
        speed == dot_speed(snapshot.phase),
{
    match snapshot.phase {
        HudPhase::Listening | HudPhase::RecordingStopped | HudPhase::Dispatching => 8,
        HudPhase::Accepted | HudPhase::Planning | HudPhase::Transcribing => 6,
        HudPhase::Reply => 5,
        HudPhase::Error => 10,
        HudPhase::Armed => 7,
        HudPhase::Idle => 0,
    }
}

/// The dots stand still exactly while nothing goes on.
pub proof fn lemma_dots_rest_when_idle(phase: HudPhase)
    ensures
        dot_speed(phase) == 0 <==> phase == HudPhase::Idle,
        dot_speed(phase) <= 10,
{
}

/// The text of the response row.
pub open spec fn response_text(d: DisplayView) -> Seq<char> {
    label_of(
        if trimmed(d.result).len() == 0 {
            d.prompt
        } else {
            d.result
        },
        460,
    )
}

/// The text of the response row.
pub fn expanded_response_text(display: &HudDisplay) -> (text: String)
    ensures
        text@ == response_text(display@),
{
    if is_blank(display.result.as_str()) {
        compact_label(display.prompt.as_str(), 460)
    } else {
        compact_label(display.result.as_str(), 460)
    }
}

/// A number with at least two digits.
pub open spec fn two_digits(n: nat) -> Seq<char> {
    if n < 10 {
        "0"@ + decimal(n)
    } else {
        decimal(n)
    }
}

fn two_digits_of(n: u64) -> (text: String)
    ensures
        text@ == two_digits(n as nat),
{
    if n < 10 {
        let mut text = "0".to_owned();
        text.append(decimal_of(n).as_str());
        text
    } else {
        decimal_of(n)
    }
}

/// Minutes and seconds.
pub open spec fn clock(secs: nat) -> Seq<char> {
    two_digits(secs / 60) + ":"@ + two_digits(secs % 60)
}

/// Minutes and seconds.
pub fn elapsed_label(secs: u64) -> (label: String)
    ensures
        label@ == clock(secs as nat),
{
    let mut label = two_digits_of(secs / 60);
    label.append(":");
    label.append(two_digits_of(secs % 60).as_str());
    label
}

/// The background that a scene has unless it is given another.
pub open spec fn is_default_background(background: IslandBackground) -> bool {
    match background {
        IslandBackground::Solid { color, opacity } => color@ == "#000000"@ && opacity == 92,
        _ => false,
    }
}

/// The background that a scene has unless it is given another.
pub fn default_island_background() -> (background: IslandBackground)
    ensures
        is_default_background(background),
{
    IslandBackground::Solid { color: "#000000".to_owned(), opacity: 92 }
}

/// Names and their colours.
pub open spec fn token_views(tokens: Seq<(String, String)>) -> Seq<(Seq<char>, Seq<char>)> {
    Seq::new(tokens.len(), |i: int| (tokens[i].0@, tokens[i].1@))
}

/// The theme that a scene has unless it is given another.
pub open spec fn is_default_theme(theme: IslandTheme) -> bool {
    &&& theme.name@ == "default"@
    &&& token_views(theme.tokens@) == seq![
        ("background"@, "#000000"@),
        ("text"@, "#e8e8ec"@),
        ("muted"@, "#8b8b95"@),
        ("blue"@, "#1e9bff"@),
        ("chip_background"@, "#1f1f22"@),
        ("divider"@, "#1b1b1f"@),
    ]
}

/// The theme that a scene has unless it is given another.
pub fn default_island_theme() -> (theme: IslandTheme)
    ensures
        is_default_theme(theme),
{
    let tokens = vec![
        ("background".to_owned(), "#000000".to_owned()),
        ("text".to_owned(), "#e8e8ec".to_owned()),
        ("muted".to_owned(), "#8b8b95".to_owned()),
        ("blue".to_owned(), "#1e9bff".to_owned()),
        ("chip_background".to_owned(), "#1f1f22".to_owned()),
        ("divider".to_owned(), "#1b1b1f".to_owned()),
    ];
    assert(token_views(tokens@) =~= seq![
        ("background"@, "#000000"@),
        ("text"@, "#e8e8ec"@),
        ("muted"@, "#8b8b95"@),
        ("blue"@, "#1e9bff"@),
        ("chip_background"@, "#1f1f22"@),
        ("divider"@, "#1b1b1f"@),
    ]);
    IslandTheme { name: "default".to_owned(), tokens }
}

/// The items at the left: the orb and the title.
pub open spec fn left_items(d: DisplayView, reply_visible: bool) -> Seq<ItemView> {
    seq![
        ItemView::Label { id: "orb"@, text: "orb"@ },
        ItemView::Label {
            id: "input"@,
            text: if reply_visible {
                "Reply"@
            } else {
                d.title
            },
        },
    ]
}

/// The item in the middle: the status.
pub open spec fn center_items(s: SnapshotView, d: DisplayView, reply_visible: bool) -> Seq<ItemView> {
    seq![ItemView::Marquee { id: "status"@, text: status_text(s, d, reply_visible) }]
}

/// The items at the right: the two chips and the activity dots.
pub open spec fn right_items(s: SnapshotView, d: DisplayView, reply_visible: bool) -> Seq<ItemView> {
    seq![
        ItemView::Chip {
            id: "transport"@,
            text: if reply_visible {
                "cua"@
            } else {
                d.tool
            },
        },
        ItemView::Chip {
            id: "target"@,
            text: if reply_visible {
                d.phase
            } else {
                d.target
            },
        },
        ItemView::DotChase {
            id: "activity"@,
            active: s.phase != HudPhase::Idle,
            palette: IslandPalette::BlueNeon,
            count: 6,
            speed: dot_speed(s.phase),
        },
    ]
}

fn region(name: &str, items: Vec<IslandItem>) -> (region: (String, IslandRegion))
    ensures
        region.0@ == name@,
        region.1.items@ == items@,
{
    (name.to_owned(), IslandRegion { items })
}

fn label(id: &str, text: String) -> (item: IslandItem)
    ensures
        item@ == (ItemView::Label { id: id@, text: text@ }),
{
    IslandItem::Label { id: id.to_owned(), text }
}

fn chip(id: &str, text: String) -> (item: IslandItem)
    ensures
        item@ == (ItemView::Chip { id: id@, text: text@ }),
{
    IslandItem::Chip { id: id.to_owned(), text }
}

fn row(id: &str, index: &str, label: &str, value: String, active: bool) -> (item: IslandItem)
    ensures
        item@ == (ItemView::Row { id: id@, index: index@, label: label@, value: value@, active }),
{
    IslandItem::Row {
        id: id.to_owned(),
        index: index.to_owned(),
        label: label.to_owned(),
        value,
        active,
    }
}

fn tool_row(id: &str, index: &str, row: &HudRow) -> (item: IslandItem)
    ensures
        item@ == (ItemView::ToolRow {
            id: id@,
            index: index@,
            label: row@.label,
            tool: row@.tool,
            app: row@.app,
            age: row@.age,
        }),
{
    IslandItem::ToolRow {
        id: id.to_owned(),
        index: index.to_owned(),
        label: row.label.clone(),
        tool: row.tool.clone(),
        app: row.app.clone(),
        age: row.age.clone(),
    }
}

fn left_of(display: &HudDisplay, reply_visible: bool) -> (items: Vec<IslandItem>)
    ensures
        item_views(items@) == left_items(display@, reply_visible),
{
    let title = if reply_visible {
        "Reply".to_owned()
    } else {
        display.title.clone()
    };
    let items = vec![label("orb", "orb".to_owned()), label("input", title)];
    assert(item_views(items@) =~= left_items(display@, reply_visible));
    items
}

fn center_of(snapshot: &HudSnapshot, display: &HudDisplay, reply_visible: bool) -> (items: Vec<
    IslandItem,
>)
    ensures
        item_views(items@) == center_items(snapshot@, display@, reply_visible),
{
    let items = vec![
        IslandItem::Marquee {
            id: "status".to_owned(),
            text: center_status_text(snapshot, display, reply_visible),
        },
    ];
    assert(item_views(items@) =~= center_items(snapshot@, display@, reply_visible));
    items
}

fn right_of(snapshot: &HudSnapshot, display: &HudDisplay, reply_visible: bool) -> (items: Vec<
    IslandItem,
>)
    ensures
        item_views(items@) == right_items(snapshot@, display@, reply_visible),
{
    let transport = if reply_visible {
        "cua".to_owned()
    } else {
        display.tool.clone()
    };
    let target = if reply_visible {
        display.phase.to_owned()
    } else {
        display.target.clone()
    };
    let items = vec![
        chip("transport", transport),
        chip("target", target),
        IslandItem::DotChase {
            id: "activity".to_owned(),
            active: dots_are_active(snapshot),
            palette: IslandPalette::BlueNeon,
            count: 6,
            speed: dot_chase_speed(snapshot),
        },
    ];
    assert(item_views(items@) =~= right_items(snapshot@, display@, reply_visible));
    items
}

/// What surrounds the regions of a scene of a snapshot.
pub open spec fn frames(scene: IslandScene, layout: IslandLayout, s: SnapshotView) -> bool {
    &&& scene.schema_version@ == ISLAND_SCHEMA_VERSION@
    &&& scene.layout == layout
    &&& scene.mode == s.mode
    &&& is_default_background(scene.background)
    &&& scene.ambient@.len() == 0
    &&& scene.actors@.len() == 0
    &&& match scene.theme {
        Some(theme) => is_default_theme(theme),
        None => false,
    }
}

fn framed(
    layout: IslandLayout,
    snapshot: &HudSnapshot,
    regions: Vec<(String, IslandRegion)>,
) -> (scene: IslandScene)
    ensures
        frames(scene, layout, snapshot@),
        scene.regions@ == regions@,
{
    IslandScene {
        schema_version: ISLAND_SCHEMA_VERSION.to_owned(),
        layout,
        mode: snapshot.mode,
        background: default_island_background(),
        regions,
        ambient: Vec::new(),
        actors: Vec::new(),
        theme: Some(default_island_theme()),
    }
}

/// The regions of the bar.
pub open spec fn compact_regions(s: SnapshotView, d: DisplayView, reply_visible: bool) -> Seq<
    (Seq<char>, Seq<ItemView>),
> {
    seq![
        ("left"@, left_items(d, reply_visible)),
        ("center"@, center_items(s, d, reply_visible)),
        ("right"@, right_items(s, d, reply_visible)),
    ]
}

/// The bar.
pub fn compact_scene(snapshot: &HudSnapshot, display: &HudDisplay, reply_visible: bool) -> (scene:
    IslandScene)
    ensures
        frames(scene, IslandLayout::Compact, snapshot@),
        region_views(scene.regions@) == compact_regions(snapshot@, display@, reply_visible),
{
    let regions = vec![
        region("left", left_of(display, reply_visible)),
        region("center", center_of(snapshot, display, reply_visible)),
        region("right", right_of(snapshot, display, reply_visible)),
    ];
    assert(region_views(regions@) =~= compact_regions(snapshot@, display@, reply_visible));
    framed(IslandLayout::Compact, snapshot, regions)
}

/// The row of the task, and the place of the step where it is known.
pub open spec fn task_items(s: SnapshotView, d: DisplayView) -> Seq<ItemView> {
    let task = ItemView::Row {
        id: "task"@,
        index: "01"@,
        label: "Task"@,
        value: d.prompt,
        active: true,
    };
    match s.step.place() {
        Some((index, total)) => seq![task, ItemView::StepCounter { id: "step"@, index, total }],
        None => seq![task],
    }
}

pub open spec fn response_items(d: DisplayView) -> Seq<ItemView> {
    seq![
        ItemView::Row {
            id: "response"@,
            index: "03"@,
            label: "Response"@,
            value: response_text(d),
            active: true,
        },
    ]
}

/// The rows of the action, the phase and the state.
pub open spec fn state_items(s: SnapshotView, d: DisplayView) -> Seq<ItemView> {
    let live = s.phase != HudPhase::Idle;
    seq![
        ItemView::Row {
            id: "action"@,
            index: "04"@,
            label: "Action"@,
            value: label_of(s.step.label, 56),
            active: true,
        },
        ItemView::Row {
            id: "phase"@,
            index: "05"@,
            label: "Phase"@,
            value: d.phase,
            active: false,
        },
        ItemView::Row {
            id: "state"@,
            index: "06"@,
            label: "State"@,
            value: if live {
                "Live"@
            } else {
                "Idle"@
            },
            active: live,
        },
    ]
}

pub open spec fn tool_item(id: Seq<char>, index: Seq<char>, row: ToolRowView) -> ItemView {
    ItemView::ToolRow {
        id,
        index,
        label: row.label,
        tool: row.tool,
        app: row.app,
        age: row.age,
    }
}

pub open spec fn tool_items(d: DisplayView) -> Seq<ItemView> {
    seq![tool_item("tool_0"@, "07"@, d.first), tool_item("tool_1"@, "08"@, d.second)]
}

pub open spec fn footer_items(d: DisplayView, model: Seq<char>, secs: nat) -> Seq<ItemView> {
    seq![
        ItemView::Label { id: "elapsed"@, text: "Elapsed "@ + clock(secs) },
        ItemView::Label { id: "model"@, text: "Model "@ + label_of(model, 30) },
        ItemView::Label { id: "transport"@, text: "Transport "@ + d.tool },
    ]
}

/// The regions of the expanded island.
pub open spec fn expanded_regions(
    s: SnapshotView,
    d: DisplayView,
    reply_visible: bool,
    model: Seq<char>,
    secs: nat,
) -> Seq<(Seq<char>, Seq<ItemView>)> {
    seq![
        ("header_left"@, left_items(d, reply_visible)),
        ("header_center"@, center_items(s, d, reply_visible)),
        ("header_right"@, right_items(s, d, reply_visible)),
        ("task"@, task_items(s, d)),
        ("response"@, response_items(d)),
        ("details_left"@, state_items(s, d)),
        ("details_right"@, tool_items(d)),
        ("footer"@, footer_items(d, model, secs)),
    ]
}

fn after_word(word: &str, rest: &str) -> (text: String)
    ensures
        text@ == word@ + rest@,
{
    let mut text = word.to_owned();
    text.append(rest);
    text
}

fn task_of(snapshot: &HudSnapshot, display: &HudDisplay) -> (items: Vec<IslandItem>)
    ensures
        item_views(items@) == task_items(snapshot@, display@),
{
    let mut items = vec![row("task", "01", "Task", display.prompt.clone(), true)];
    if let Some((index, total)) = snapshot.step.counter() {
        items.push(IslandItem::StepCounter { id: "step".to_owned(), index, total });
    }
    assert(item_views(items@) =~= task_items(snapshot@, display@));
    items
}

fn response_of(display: &HudDisplay) -> (items: Vec<IslandItem>)
    ensures
        item_views(items@) == response_items(display@),
{
    let items = vec![
        row("response", "03", "Response", expanded_response_text(display), true),
    ];
    assert(item_views(items@) =~= response_items(display@));
    items
}

fn state_of(snapshot: &HudSnapshot, display: &HudDisplay) -> (items: Vec<IslandItem>)
    ensures
        item_views(items@) == state_items(snapshot@, display@),
{
    let live = dots_are_active(snapshot);
    let state = if live {
        "Live".to_owned()
    } else {
        "Idle".to_owned()
    };
    let items = vec![
        row("action", "04", "Action", compact_label(snapshot.step.label.as_str(), 56), true),
        row("phase", "05", "Phase", display.phase.to_owned(), false),
        row("state", "06", "State", state, live),
    ];
    assert(item_views(items@) =~= state_items(snapshot@, display@));
    items
}

fn tools_of(display: &HudDisplay) -> (items: Vec<IslandItem>)
    ensures
        item_views(items@) == tool_items(display@),
{
    let items = vec![
        tool_row("tool_0", "07", &display.rows[0]),
        tool_row("tool_1", "08", &display.rows[1]),
    ];
    assert(item_views(items@) =~= tool_items(display@));
    items
}

fn footer_of(display: &HudDisplay, model_label: &str, elapsed_secs: u64) -> (items: Vec<IslandItem>)
    ensures
        item_views(items@) == footer_items(display@, model_label@, elapsed_secs as nat),
{
    let items = vec![
        label("elapsed", after_word("Elapsed ", elapsed_label(elapsed_secs).as_str())),
        label("model", after_word("Model ", compact_label(model_label, 30).as_str())),
        label("transport", after_word("Transport ", display.tool.as_str())),
    ];
    assert(item_views(items@) =~= footer_items(display@, model_label@, elapsed_secs as nat));
    items
}

/// The expanded island.
pub fn expanded_scene(
    snapshot: &HudSnapshot,
    display: &HudDisplay,
    reply_visible: bool,
    model_label: &str,
    elapsed_secs: u64,
) -> (scene: IslandScene)
    ensures
        frames(scene, IslandLayout::Expanded, snapshot@),
        region_views(scene.regions@) == expanded_regions(
            snapshot@,
            display@,
            reply_visible,
            model_label@,
            elapsed_secs as nat,
        ),
{
    let regions = vec![
        region("header_left", left_of(display, reply_visible)),
        region("header_center", center_of(snapshot, display, reply_visible)),
        region("header_right", right_of(snapshot, display, reply_visible)),
        region("task", task_of(snapshot, display)),
        region("response", response_of(display)),
        region("details_left", state_of(snapshot, display)),
        region("details_right", tools_of(display)),
        region("footer", footer_of(display, model_label, elapsed_secs)),
    ];
    assert(region_views(regions@) =~= expanded_regions(
        snapshot@,
        display@,
        reply_visible,
        model_label@,
        elapsed_secs as nat,
    ));
    framed(IslandLayout::Expanded, snapshot, regions)
}

/// A scene shows the snapshot, as the bar or as the expanded island.
pub open spec fn shows(
    scene: IslandScene,
    snapshot: SnapshotView,
    display: DisplayView,
    expanded: bool,
    reply_visible: bool,
    model_label: Seq<char>,
    elapsed_secs: nat,
) -> bool {
    if expanded {
        &&& frames(scene, IslandLayout::Expanded, snapshot)
        &&& region_views(scene.regions@) == expanded_regions(
            snapshot,
            display,
            reply_visible,
            model_label,
            elapsed_secs,
        )
    } else {
        &&& frames(scene, IslandLayout::Compact, snapshot)
        &&& region_views(scene.regions@) == compact_regions(snapshot, display, reply_visible)
    }
}

/// The bar, or the expanded island, if it passes the validation of scenes; else
/// the error of the validation.
pub fn island_scene_from_snapshot<E, V: Fn(&IslandScene) -> Result<(), E>>(
    snapshot: &HudSnapshot,
    display: &HudDisplay,
    expanded: bool,
    reply_visible: bool,
    model_label: &str,
    elapsed_secs: u64,
    validate: V,
) -> (result: Result<IslandScene, E>)
    requires
        forall|scene: IslandScene| #[trigger] call_requires(validate, (&scene,)),
    ensures
        match result {
            Ok(scene) => {
                &&& shows(
                    scene,
                    snapshot@,
                    display@,
                    expanded,
                    reply_visible,
                    model_label@,
                    elapsed_secs as nat,
                )
                &&& call_ensures(validate, (&scene,), Ok(()))
            },
            Err(error) => exists|scene: IslandScene|
                {
                    &&& #[trigger] shows(
                        scene,
                        snapshot@,
                        display@,
                        expanded,
                        reply_visible,
                        model_label@,
                        elapsed_secs as nat,
                    )
                    &&& call_ensures(validate, (&scene,), Err(error))
                },
        },
{
    let scene = if expanded {
        expanded_scene(snapshot, display, reply_visible, model_label, elapsed_secs)
    } else {
        compact_scene(snapshot, display, reply_visible)
    };
    assert(shows(
        scene,
        snapshot@,
        display@,
        expanded,
        reply_visible,
        model_label@,
        elapsed_secs as nat,
    ));
    match validate(&scene) {
        Ok(passed) => {
            assert(passed == ());
            Ok(scene)
        },
        Err(error) => Err(error),
    }
}

/// No region of the expanded island has that name.
spec fn outside_expanded(name: Seq<char>) -> bool {
    &&& name != "header_left"@
    &&& name != "header_center"@
    &&& name != "header_right"@
    &&& name != "task"@
    &&& name != "response"@
    &&& name != "details_left"@
    &&& name != "details_right"@
    &&& name != "footer"@
}

proof fn lemma_region_names()
    ensures
        "left"@ != "right"@,
        "left"@ != "center"@,
        "left"@ != "header_left"@,
        "left"@ != "details_right"@,
        "center"@ != "right"@,
        "center"@ != "details_right"@,
        "right"@ != "details_right"@,
        "header_left"@ != "header_center"@,
        "header_left"@ != "header_right"@,
        "header_center"@ != "header_right"@,
        "task"@ != "header_left"@,
        "task"@ != "header_center"@,
        "task"@ != "header_right"@,
        "response"@ != "header_left"@,
        "response"@ != "header_center"@,
        "response"@ != "header_right"@,
        "response"@ != "task"@,
        "details_left"@ != "details_right"@,
        "details_right"@ != "header_left"@,
        "details_right"@ != "header_center"@,
        "details_right"@ != "header_right"@,
        "details_right"@ != "task"@,
        "details_right"@ != "response"@,
        "footer"@ != "header_left"@,
        "footer"@ != "header_center"@,
        "footer"@ != "header_right"@,
        "footer"@ != "task"@,
        "footer"@ != "response"@,
        "footer"@ != "details_left"@,
        "footer"@ != "details_right"@,
        outside_expanded("center"@),
        outside_expanded("right"@),
{
    reveal_strlit("left");
    reveal_strlit("center");
    reveal_strlit("right");
    reveal_strlit("header_left");
    reveal_strlit("header_center");
    reveal_strlit("header_right");
    reveal_strlit("task");
    reveal_strlit("response");
    reveal_strlit("details_left");
    reveal_strlit("details_right");
    reveal_strlit("footer");
    assert("left"@.len() == 4 && "left"@[0] == 'l');
    assert("center"@.len() == 6 && "center"@[0] == 'c');
    assert("right"@.len() == 5 && "right"@[0] == 'r');
    assert("header_left"@.len() == 11 && "header_left"@[0] == 'h');
    assert("header_center"@.len() == 13 && "header_center"@[0] == 'h');
    assert("header_right"@.len() == 12 && "header_right"@[0] == 'h');
    assert("task"@.len() == 4 && "task"@[0] == 't');
    assert("response"@.len() == 8 && "response"@[0] == 'r');
    assert("details_left"@.len() == 12 && "details_left"@[0] == 'd');
    assert("details_right"@.len() == 13 && "details_right"@[0] == 'd');
    assert("footer"@.len() == 6 && "footer"@[0] == 'f');
    assert("header_left"@[7] == 'l' && "header_right"@[7] == 'r');
}

proof fn lemma_item_names()
    ensures
        "activity"@ != "transport"@,
        "activity"@ != "target"@,
        "elapsed"@ != "model"@,
        "elapsed"@ != "transport"@,
        "model"@ != "transport"@,
        "step"@ != "task"@,
{
    reveal_strlit("activity");
    reveal_strlit("transport");
    reveal_strlit("target");
    reveal_strlit("elapsed");
    reveal_strlit("model");
    reveal_strlit("step");
    reveal_strlit("task");
    assert("activity"@.len() == 8 && "activity"@[0] == 'a');
    assert("transport"@.len() == 9 && "transport"@[0] == 't');
    assert("target"@.len() == 6 && "target"@[0] == 't');
    assert("elapsed"@.len() == 7 && "elapsed"@[0] == 'e');
    assert("model"@.len() == 5 && "model"@[0] == 'm');
    assert("step"@.len() == 4 && "step"@[0] == 's');
    assert("task"@.len() == 4 && "task"@[0] == 't');
}

/// What a reader finds in the bar: the status, the dots, and no more.
pub proof fn lemma_compact_scene_is_readable(s: SnapshotView, d: DisplayView, reply_visible: bool)
    ensures
        ({
            let regions = compact_regions(s, d, reply_visible);
            &&& text_in_either(regions, "center"@, "header_center"@, "status"@) == Some(
                status_text(s, d, reply_visible),
            )
            &&& scene_dots(regions) == Some(
                DotChaseScene {
                    active: s.phase != HudPhase::Idle,
                    count: 6,
                    speed: dot_speed(s.phase),
                },
            )
            &&& scene_rows(regions).len() == 0
            &&& !fills_expanded(IslandLayout::Compact, regions)
        }),
{
    let regions = compact_regions(s, d, reply_visible);
    lemma_region_names();
    lemma_item_names();
    reveal_with_fuel(region_items, 4);
    reveal_with_fuel(named_item, 4);
    assert(region_items(regions, "center"@) == Some(center_items(s, d, reply_visible)));
    assert(region_items(regions, "right"@) == Some(right_items(s, d, reply_visible)));
    assert(region_items(regions, "details_right"@) is None);
}

/// What a reader finds in the expanded island: everything that its body
/// needs, the status, the dots, the place of the step and both tool rows.
pub proof fn lemma_expanded_scene_is_readable(
    s: SnapshotView,
    d: DisplayView,
    reply_visible: bool,
    model: Seq<char>,
    secs: nat,
)
    ensures
        ({
            let regions = expanded_regions(s, d, reply_visible, model, secs);
            &&& fills_expanded(IslandLayout::Expanded, regions)
            &&& text_in_either(regions, "center"@, "header_center"@, "status"@) == Some(
                status_text(s, d, reply_visible),
            )
            &&& scene_dots(regions) == Some(
                DotChaseScene {
                    active: s.phase != HudPhase::Idle,
                    count: 6,
                    speed: dot_speed(s.phase),
                },
            )
            &&& place_of(find_item(regions, "task"@, "step"@)) == s.step.place()
            &&& row_value(find_item(regions, "task"@, "task"@)) == Some(d.prompt)
            &&& row_value(find_item(regions, "response"@, "response"@)) == Some(response_text(d))
            &&& scene_rows(regions) == seq![d.first, d.second]
            &&& shown_text(find_item(regions, "footer"@, "elapsed"@)) == Some(
                "Elapsed "@ + clock(secs),
            )
        }),
{
    let regions = expanded_regions(s, d, reply_visible, model, secs);
    lemma_region_names();
    lemma_item_names();
    reveal_with_fuel(region_items, 9);
    reveal_with_fuel(named_item, 4);
    reveal_with_fuel(tool_rows, 3);
    assert(region_items(regions, "center"@) is None);
    assert(region_items(regions, "right"@) is None);
    assert(region_items(regions, "header_center"@) == Some(center_items(s, d, reply_visible)));
    assert(region_items(regions, "header_right"@) == Some(right_items(s, d, reply_visible)));
    assert(region_items(regions, "task"@) == Some(task_items(s, d)));
    assert(region_items(regions, "response"@) == Some(response_items(d)));
    assert(region_items(regions, "details_right"@) == Some(tool_items(d)));
    assert(region_items(regions, "footer"@) == Some(footer_items(d, model, secs)));
    let tools = tool_items(d);
    assert(tools.drop_last().drop_last().len() == 0);
    assert(tool_rows(tools) =~= seq![d.first, d.second]);
}

/// A label is the words of the value as long as they fit, and else their first
/// characters up to the limit with three dots behind them.
pub proof fn lemma_label_keeps_the_start(value: Seq<char>, limit: nat, i: int)
    ensures
        squeezed(value).len() <= limit ==> label_of(value, limit) == squeezed(value),
        squeezed(value).len() > limit ==> label_of(value, limit).len() == limit + 3,
        squeezed(value).len() > limit && 0 <= i < limit ==> label_of(value, limit)[i] == squeezed(
            value,
        )[i],
        squeezed(value).len() > limit && limit <= i < limit + 3 ==> label_of(value, limit)[i] == '.',
{
    reveal_strlit("...");
}

/// A reply is the result and the title; without one what was said is, and without
/// that the step is the result. What was said is the prompt.
pub proof fn lemma_reply_comes_first(s: SnapshotView, response: Seq<char>, transcript: Seq<char>)
    ensures
        s.response == Some(response) ==> display_of(s).result == response && display_of(s).title
            == label_of(response, 34),
        s.response is None && s.transcript == Some(transcript) ==> display_of(s).result == transcript
            && display_of(s).title == label_of(transcript, 34),
        s.response is None && s.transcript is None ==> display_of(s).result == s.step.label
            && display_of(s).title == s.input_label,
        s.transcript == Some(transcript) ==> display_of(s).prompt == transcript,
        s.transcript is None ==> display_of(s).prompt == s.step.label,
        display_of(s).phase == phase_label(s.phase),
        display_of(s).first.app == phase_label(s.phase),
        s.response == Some(response) ==> display_of(s).second.label == label_of(response, 36)
            && display_of(s).second.age == "done"@,
        s.response is None ==> display_of(s).second.label == label_of(s.step.label, 36)
            && display_of(s).second.age == "live"@,
        s.transcript == Some(transcript) ==> display_of(s).first.label == label_of(transcript, 36),
{
}

/// A reply that is visible is the status. Else a counted step is shown with its
/// place while the agent works, and while the user is heard the phase is.
pub proof fn lemma_status_tells_the_step(
    s: SnapshotView,
    d: DisplayView,
    index: u16,
    total: u16,
)
    ensures
        status_text(s, d, true) == d.result,
        s.step.place() == Some((index, total)) && (s.phase == HudPhase::Dispatching || s.phase
            == HudPhase::Planning || s.phase == HudPhase::Reply || s.phase == HudPhase::Error
            || s.phase == HudPhase::Armed) ==> status_text(s, d, false) == "Step "@ + decimal(
            index as nat,
        ) + "/"@ + decimal(total as nat) + "   "@ + s.step.label,
        s.step.place() is None && (s.phase == HudPhase::Dispatching || s.phase == HudPhase::Planning
            || s.phase == HudPhase::Reply || s.phase == HudPhase::Error || s.phase
            == HudPhase::Armed || s.phase == HudPhase::Idle) ==> status_text(s, d, false)
            == s.step.label,
        s.phase == HudPhase::Listening || s.phase == HudPhase::RecordingStopped || s.phase
            == HudPhase::Accepted ==> status_text(s, d, false) == phase_label(s.phase),
{
}

/// While the user is heard the microphone is shown, whatever the tool is.
pub proof fn lemma_microphone_is_shown(s: SnapshotView)
    ensures
        s.phase == HudPhase::Listening || s.phase == HudPhase::RecordingStopped || s.phase
            == HudPhase::Accepted ==> transport(s) == "Mic"@ && heard_row(s).tool == "Mic"@,
        (s.phase == HudPhase::Listening || s.phase == HudPhase::RecordingStopped || s.phase
            == HudPhase::Accepted) && !has_text(s.tool, "Screen"@) && !has_text(s.tool, "Capture"@)
            ==> target(s) == "Microphone"@,
        s.phase == HudPhase::Transcribing ==> heard_row(s).tool == "STT"@,
        s.phase == HudPhase::Idle || s.phase == HudPhase::Dispatching || s.phase == HudPhase::Reply
            ==> transport(s) == tool_name(s.tool),
{
}

/// A tool has its short name wherever the known word stands in it, and keeps its
/// own name where none does.
pub proof fn lemma_tool_has_its_short_name(tool: Seq<char>)
    ensures
        has_text(tool, "Unix"@) || has_text(tool, "socket"@) ==> tool_name(tool) == "Socket"@,
        ({
            let socket = has_text(tool, "Unix"@) || has_text(tool, "socket"@);
            let http = has_text(tool, "HTTP"@);
            let router = has_text(tool, "OpenRouter"@);
            let speech = has_text(tool, "Whisper"@) || has_text(tool, "STT"@);
            let voice = has_text(tool, "Microphone"@);
            let screen = has_text(tool, "Screen"@) || has_text(tool, "Capture"@);
            &&& http && !socket ==> tool_name(tool) == "HTTP"@
            &&& router && !socket && !http ==> tool_name(tool) == "Router"@
            &&& speech && !socket && !http && !router ==> tool_name(tool) == "STT"@
            &&& voice && !socket && !http && !router && !speech ==> tool_name(tool) == "Mic"@
            &&& screen && !socket && !http && !router && !speech && !voice ==> tool_name(tool)
                == "Screen"@
            &&& !screen && !socket && !http && !router && !speech && !voice ==> tool_name(tool)
                == tool
        }),
{
}

/// The screen, the applications and the desktop are named as the target where the
/// tool names them; else the phase decides.
pub proof fn lemma_target_is_named(s: SnapshotView)
    ensures
        has_text(s.tool, "Screen"@) || has_text(s.tool, "Capture"@) ==> target(s) == "Screen"@,
        ({
            let seen = has_text(s.tool, "Screen"@) || has_text(s.tool, "Capture"@);
            let heard = has_text(s.tool, "Microphone"@) || s.phase == HudPhase::Listening || s.phase
                == HudPhase::RecordingStopped || s.phase == HudPhase::Accepted;
            let browser = has_text(s.tool, "Safari"@);
            let terminal = has_text(s.tool, "Terminal"@);
            let finder = has_text(s.tool, "Finder"@);
            let desktop = has_text(s.tool, "Unix"@) || has_text(s.tool, "socket"@) || has_text(
                s.tool,
                "Mouse"@,
            ) || has_text(s.tool, "Keyboard"@);
            let none = !seen && !heard && !browser && !terminal && !finder && !desktop;
            &&& heard && !seen ==> target(s) == "Microphone"@
            &&& browser && !heard && !seen ==> target(s) == "Safari"@
            &&& terminal && !browser && !heard && !seen ==> target(s) == "Terminal"@
            &&& finder && !terminal && !browser && !heard && !seen ==> target(s) == "Finder"@
            &&& desktop && !finder && !terminal && !browser && !heard && !seen ==> target(s)
                == "macOS"@
            &&& none && s.phase == HudPhase::Transcribing ==> target(s) == "STT"@
            &&& none && s.phase == HudPhase::Planning ==> target(s) == "Model"@
            &&& none && s.phase == HudPhase::Reply ==> target(s) == "Result"@
            &&& none && s.phase != HudPhase::Transcribing && s.phase != HudPhase::Planning
                && s.phase != HudPhase::Reply ==> target(s) == "macOS"@
        }),
{
}

/// The time that has passed is told in minutes and seconds, the seconds below
/// sixty and each in two digits at least: what is told adds up to the time.
pub proof fn lemma_clock_tells_the_time(secs: nat)
    ensures
        exists|minutes: Seq<char>, seconds: Seq<char>|
            clock(secs) == #[trigger] (minutes + ":"@ + seconds) && seconds.len() == 2
                && minutes.len() >= 2 && all_digits(minutes) && all_digits(seconds)
                && digits_value(minutes) * 60 + digits_value(seconds) == secs && digits_value(
                seconds,
            ) < 60,
{
    let m = secs / 60;
    let s = secs % 60;
    lemma_two_digits(m);
    lemma_two_digits(s);
    assert(clock(secs) == two_digits(m) + ":"@ + two_digits(s));
    assert(digits_value(two_digits(m)) * 60 + digits_value(two_digits(s)) == secs);
}

proof fn lemma_two_digits(n: nat)
    ensures
        all_digits(two_digits(n)),
        digits_value(two_digits(n)) == n,
        two_digits(n).len() >= 2,
        n < 100 ==> two_digits(n).len() == 2,
{
    lemma_number_is_read_back(n, n);
    if n < 10 {
        reveal_strlit("0");
        let s = "0"@ + decimal(n);
        assert(s.drop_last() =~= "0"@);
        assert("0"@.drop_last() =~= Seq::<char>::empty());
        assert(digits_value("0"@.drop_last()) == 0);
        assert(digits_value("0"@) == 0);
        assert(s.last() == digit_char(n));
        assert(digits_value(s) == n);
    } else {
        assert(decimal(n) == decimal(n / 10).push(digit_char(n % 10)));
        lemma_number_is_read_back(n / 10, n);
        if n < 100 {
            assert(n / 10 < 10);
        }
    }
}

/// The dots move exactly while something goes on, and an error moves them most.
pub proof fn lemma_dots_tell_the_phase(phase: HudPhase, other: HudPhase)
    ensures
        dot_speed(HudPhase::Error) >= dot_speed(other),
        hears(phase) ==> dot_speed(phase) >= 6,
        phase == HudPhase::Dispatching ==> dot_speed(phase) == dot_speed(HudPhase::Listening),
{
}

/// The expanded island shows the task, the response, the action, the phase, the
/// state and the last two tools, each in its row, and the time, the model and the
/// transport below.
pub proof fn lemma_rows_of_the_expanded_island(
    s: SnapshotView,
    d: DisplayView,
    model: Seq<char>,
    secs: nat,
)
    ensures
        task_items(s, d)[0] == (ItemView::Row {
            id: "task"@,
            index: "01"@,
            label: "Task"@,
            value: d.prompt,
            active: true,
        }),
        s.step.place() matches Some((index, total)) ==> task_items(s, d)[1]
            == (ItemView::StepCounter { id: "step"@, index, total }),
        s.step.place() is None ==> task_items(s, d).len() == 1,
        trimmed(d.result).len() > 0 ==> response_items(d) == seq![
            ItemView::Row {
                id: "response"@,
                index: "03"@,
                label: "Response"@,
                value: label_of(d.result, 460),
                active: true,
            },
        ],
        trimmed(d.result).len() == 0 ==> response_items(d) == seq![
            ItemView::Row {
                id: "response"@,
                index: "03"@,
                label: "Response"@,
                value: label_of(d.prompt, 460),
                active: true,
            },
        ],
        state_items(s, d)[0] == (ItemView::Row {
            id: "action"@,
            index: "04"@,
            label: "Action"@,
            value: label_of(s.step.label, 56),
            active: true,
        }),
        state_items(s, d)[1] == (ItemView::Row {
            id: "phase"@,
            index: "05"@,
            label: "Phase"@,
            value: d.phase,
            active: false,
        }),
        s.phase == HudPhase::Idle ==> state_items(s, d)[2] == (ItemView::Row {
            id: "state"@,
            index: "06"@,
            label: "State"@,
            value: "Idle"@,
            active: false,
        }),
        s.phase != HudPhase::Idle ==> state_items(s, d)[2] == (ItemView::Row {
            id: "state"@,
            index: "06"@,
            label: "State"@,
            value: "Live"@,
            active: true,
        }),
        tool_rows(tool_items(d)) == seq![d.first, d.second],
        footer_items(d, model, secs)[0] == (ItemView::Label {
            id: "elapsed"@,
            text: "Elapsed "@ + clock(secs),
        }),
        footer_items(d, model, secs)[1] == (ItemView::Label {
            id: "model"@,
            text: "Model "@ + label_of(model, 30),
        }),
        footer_items(d, model, secs)[2] == (ItemView::Label {
            id: "transport"@,
            text: "Transport "@ + d.tool,
        }),
{
    let items = tool_items(d);
    assert(items.drop_last().drop_last() =~= Seq::<ItemView>::empty());
    assert(items.drop_last().last() == items[0]);
    assert(tool_rows(items.drop_last().drop_last()) =~= Seq::<ToolRowView>::empty());
    assert(tool_rows(items.drop_last()) =~= seq![d.first]);
    assert(tool_rows(items) =~= seq![d.first, d.second]);
}

/// A scene of the assistant's own has the plain background and theme, in the
/// layout and the mode of the snapshot, and nothing moves in it.
pub proof fn lemma_scene_is_plain(scene: IslandScene, layout: IslandLayout, s: SnapshotView)
    requires
        frames(scene, layout, s),
    ensures
        scene.layout == layout,
        scene.mode == s.mode,
        scene.ambient@.len() == 0,
        scene.actors@.len() == 0,
        scene.schema_version@ == "cua.island_scene.v1"@,
        scene.background matches IslandBackground::Solid { color, opacity } && color@ == "#000000"@
            && opacity == 92,
        scene.theme matches Some(theme) && theme.name@ == "default"@ && theme.tokens@.len() == 6
            && theme.tokens@[0].0@ == "background"@ && theme.tokens@[0].1@ == "#000000"@
            && theme.tokens@[1].0@ == "text"@ && theme.tokens@[1].1@ == "#e8e8ec"@
            && theme.tokens@[2].0@ == "muted"@ && theme.tokens@[2].1@ == "#8b8b95"@
            && theme.tokens@[3].0@ == "blue"@ && theme.tokens@[3].1@ == "#1e9bff"@
            && theme.tokens@[4].0@ == "chip_background"@ && theme.tokens@[4].1@ == "#1f1f22"@
            && theme.tokens@[5].0@ == "divider"@ && theme.tokens@[5].1@ == "#1b1b1f"@,
{
    let theme = scene.theme->0;
    let shown = token_views(theme.tokens@);
    assert(shown.len() == 6);
    assert(shown[0] == ("background"@, "#000000"@));
    assert(shown[1] == ("text"@, "#e8e8ec"@));
    assert(shown[2] == ("muted"@, "#8b8b95"@));
    assert(shown[3] == ("blue"@, "#1e9bff"@));
    assert(shown[4] == ("chip_background"@, "#1f1f22"@));
    assert(shown[5] == ("divider"@, "#1b1b1f"@));
}

/// An error runs the dots fastest, then what listens and what acts, then what
/// waits to listen, then what thinks, and a reply slowest.
pub proof fn lemma_dots_have_their_speeds()
    ensures
        dot_speed(HudPhase::Error) == 10,
        dot_speed(HudPhase::Listening) == 8,
        dot_speed(HudPhase::RecordingStopped) == 8,
        dot_speed(HudPhase::Dispatching) == 8,
        dot_speed(HudPhase::Armed) == 7,
        dot_speed(HudPhase::Accepted) == 6,
        dot_speed(HudPhase::Planning) == 6,
        dot_speed(HudPhase::Transcribing) == 6,
        dot_speed(HudPhase::Reply) == 5,
        dot_speed(HudPhase::Idle) == 0,
{
}

/// The row on what is done tells the reply once there is one, and the step before
/// that; what goes through the socket belongs to the system.
pub proof fn lemma_row_tells_what_is_done(s: SnapshotView)
    ensures
        s.response matches Some(response) ==> done_row(s).label == label_of(response, 36)
            && done_row(s).age == "done"@,
        s.response is None ==> done_row(s).label == label_of(s.step.label, 36) && done_row(s).age
            == "live"@,
        has_text(s.tool, "Unix"@) ==> done_row(s).app == "macOS"@,
        has_text(s.tool, "socket"@) ==> done_row(s).app == "macOS"@,
        !has_text(s.tool, "Unix"@) && !has_text(s.tool, "socket"@) ==> done_row(s).app == target(s),
        done_row(s).tool == tool_name(s.tool),
{
}

/// The row on what was heard tells the command once there is one, and which tool
/// hears it.
pub proof fn lemma_row_tells_what_was_heard(s: SnapshotView)
    ensures
        s.transcript matches Some(transcript) ==> heard_row(s).label == label_of(transcript, 36),
        s.transcript is None ==> heard_row(s).label == "listening for voice"@,
        s.phase == HudPhase::Transcribing && !hears(s.phase) ==> heard_row(s).tool == "STT"@,
        hears(s.phase) ==> heard_row(s).tool == "Mic"@,
        !hears(s.phase) && s.phase != HudPhase::Transcribing ==> heard_row(s).tool == tool_name(
            s.tool,
        ),
        heard_row(s).app == phase_label(s.phase),
        heard_row(s).age == "now"@,
{
}

} // verus!
