//! The scenes of the island: regions of items, and what is read out of them.

use vstd::prelude::*;

use crate::text::same;
use crate::ui_state::UiMode;

verus! {

pub const ISLAND_SCHEMA_VERSION: &'static str = "cua.island_scene.v1";

#[derive(Clone, Copy, Debug, PartialEq, Eq, Structural)]
pub enum IslandLayout {
    Compact,
    Expanded,
}

#[derive(Clone, Copy, Debug, PartialEq, Eq, Structural)]
pub enum IslandPalette {
    BlueNeon,
}

/// One thing in a region.
#[derive(Clone, Debug, PartialEq, Eq)]
pub enum IslandItem {
    Label { id: String, text: String },
    Marquee { id: String, text: String },
    Chip { id: String, text: String },
    StepCounter { id: String, index: u16, total: u16 },
    DotChase { id: String, active: bool, palette: IslandPalette, count: u8, speed: u8 },
    Row { id: String, index: String, label: String, value: String, active: bool },
    ToolRow { id: String, index: String, label: String, tool: String, app: String, age: String },
    Divider { id: String },
    Spacer { id: String, width: u16 },
}

/// What an item means.
pub enum ItemView {
    Label { id: Seq<char>, text: Seq<char> },
    Marquee { id: Seq<char>, text: Seq<char> },
    Chip { id: Seq<char>, text: Seq<char> },
    StepCounter { id: Seq<char>, index: u16, total: u16 },
    DotChase { id: Seq<char>, active: bool, palette: IslandPalette, count: u8, speed: u8 },
    Row { id: Seq<char>, index: Seq<char>, label: Seq<char>, value: Seq<char>, active: bool },
    ToolRow {
        id: Seq<char>,
        index: Seq<char>,
        label: Seq<char>,
        tool: Seq<char>,
        app: Seq<char>,
        age: Seq<char>,
    },
    Divider { id: Seq<char> },
    Spacer { id: Seq<char>, width: u16 },
}

impl View for IslandItem {
    type V = ItemView;

    open spec fn view(&self) -> ItemView {
        match self {
            IslandItem::Label { id, text } => ItemView::Label { id: id@, text: text@ },
            IslandItem::Marquee { id, text } => ItemView::Marquee { id: id@, text: text@ },
            IslandItem::Chip { id, text } => ItemView::Chip { id: id@, text: text@ },
            IslandItem::StepCounter { id, index, total } => ItemView::StepCounter {
                id: id@,
                index: *index,
                total: *total,
            },
            IslandItem::DotChase { id, active, palette, count, speed } => ItemView::DotChase {
                id: id@,
                active: *active,
                palette: *palette,
                count: *count,
                speed: *speed,
            },
            IslandItem::Row { id, index, label, value, active } => ItemView::Row {
                id: id@,
                index: index@,
                label: label@,
                value: value@,
                active: *active,
            },
            IslandItem::ToolRow { id, index, label, tool, app, age } => ItemView::ToolRow {
                id: id@,
                index: index@,
                label: label@,
                tool: tool@,
                app: app@,
                age: age@,
            },
            IslandItem::Divider { id } => ItemView::Divider { id: id@ },
            IslandItem::Spacer { id, width } => ItemView::Spacer { id: id@, width: *width },
        }
    }
}

/// The name of an item.
pub open spec fn item_id(item: ItemView) -> Seq<char> {
    match item {
        ItemView::Label { id, .. } => id,
        ItemView::Marquee { id, .. } => id,
        ItemView::Chip { id, .. } => id,
        ItemView::StepCounter { id, .. } => id,
        ItemView::DotChase { id, .. } => id,
        ItemView::Row { id, .. } => id,
        ItemView::ToolRow { id, .. } => id,
        ItemView::Divider { id } => id,
        ItemView::Spacer { id, .. } => id,
    }
}

/// The items of a region, in order.
#[derive(Clone, Debug, PartialEq, Eq)]
pub struct IslandRegion {
    pub items: Vec<IslandItem>,
}

pub open spec fn item_views(items: Seq<IslandItem>) -> Seq<ItemView> {
    Seq::new(items.len(), |i: int| items[i]@)
}

#[derive(Clone, Debug, PartialEq, Eq)]
pub struct IslandColorStop {
    pub offset: u16,
    pub color: String,
}

/// What is painted behind the items.
#[derive(Clone, Debug, PartialEq, Eq)]
pub enum IslandBackground {
    Solid { color: String, opacity: u8 },
    Transparent { opacity: u8 },
    LinearGradient { angle_degrees: u16, opacity: u8, stops: Vec<IslandColorStop> },
    AnimatedGradient {
        angle_degrees: u16,
        opacity: u8,
        duration_ms: u16,
        stops: Vec<IslandColorStop>,
    },
    NeonSweep { base_color: String, sweep_color: String, opacity: u8, duration_ms: u16 },
}

#[derive(Clone, Copy, Debug, PartialEq, Eq, Structural)]
pub enum IslandAmbientKind {
    SoftSweep,
    BreathingGlow,
}

/// A light that moves behind the items.
#[derive(Clone, Debug, PartialEq, Eq)]
pub struct IslandAmbientPattern {
    pub id: String,
    pub kind: IslandAmbientKind,
    pub active: bool,
    pub color: String,
    pub opacity: u8,
    pub speed: u8,
}

#[derive(Clone, Copy, Debug, PartialEq, Eq, Structural)]
pub enum IslandActorKind {
    Sprite,
    Particle,
}

/// How an actor moves.
#[derive(Clone, Debug, PartialEq, Eq)]
pub enum IslandMotion {
    Still,
    Fade { duration_ms: u16 },
    Pulse { duration_ms: u16 },
    SlideTo { x: i32, y: i32, duration_ms: u16 },
    WalkTo { region: String, item: String, duration_ms: u16 },
}

/// A figure that is drawn over the items.
#[derive(Clone, Debug, PartialEq, Eq)]
pub struct IslandActor {
    pub id: String,
    pub kind: IslandActorKind,
    pub x: i32,
    pub y: i32,
    pub width: u16,
    pub height: u16,
    pub motion: Option<IslandMotion>,
    pub interactive: bool,
}

/// The colours of a scene, by their names.
#[derive(Clone, Debug, PartialEq, Eq)]
pub struct IslandTheme {
    pub name: String,
    pub tokens: Vec<(String, String)>,
}

/// What the island shows: regions by their names, and what surrounds them.
#[derive(Clone, Debug, PartialEq, Eq)]
pub struct IslandScene {
    pub schema_version: String,
    pub layout: IslandLayout,
    pub mode: UiMode,
    pub background: IslandBackground,
    pub regions: Vec<(String, IslandRegion)>,
    pub ambient: Vec<IslandAmbientPattern>,
    pub actors: Vec<IslandActor>,
    pub theme: Option<IslandTheme>,
}

/// The regions of a scene, in order.
pub open spec fn region_views(regions: Seq<(String, IslandRegion)>) -> Seq<
    (Seq<char>, Seq<ItemView>),
> {
    Seq::new(regions.len(), |i: int| (regions[i].0@, item_views(regions[i].1.items@)))
}

/// The items of the first region of that name.
pub open spec fn region_items(regions: Seq<(Seq<char>, Seq<ItemView>)>, name: Seq<char>) -> Option<
    Seq<ItemView>,
>
    decreases regions.len(),
{
    if regions.len() == 0 {
        None
    } else if regions[0].0 == name {
        Some(regions[0].1)
    } else {
        region_items(regions.skip(1), name)
    }
}

/// The first item of that name.
pub open spec fn named_item(items: Seq<ItemView>, id: Seq<char>) -> Option<ItemView>
    decreases items.len(),
{
    if items.len() == 0 {
        None
    } else if item_id(items[0]) == id {
        Some(items[0])
    } else {
        named_item(items.skip(1), id)
    }
}

pub open spec fn find_item(
    regions: Seq<(Seq<char>, Seq<ItemView>)>,
    region: Seq<char>,
    id: Seq<char>,
) -> Option<ItemView> {
    match region_items(regions, region) {
        Some(items) => named_item(items, id),
        None => None,
    }
}

pub open spec fn opt_item(item: Option<&IslandItem>) -> Option<ItemView> {
    match item {
        Some(item) => Some(item@),
        None => None,
    }
}

/// The text of a label, a marquee or a chip.
pub open spec fn shown_text(item: Option<ItemView>) -> Option<Seq<char>> {
    match item {
        Some(ItemView::Label { text, .. }) => Some(text),
        Some(ItemView::Marquee { text, .. }) => Some(text),
        Some(ItemView::Chip { text, .. }) => Some(text),
        _ => None,
    }
}

/// The name of an item.
pub fn island_item_id(item: &IslandItem) -> (id: &str)
    ensures
        id@ == item_id(item@),
{
    match item {
        IslandItem::Label { id, .. } => id.as_str(),
        IslandItem::Marquee { id, .. } => id.as_str(),
        IslandItem::Chip { id, .. } => id.as_str(),
        IslandItem::StepCounter { id, .. } => id.as_str(),
        IslandItem::DotChase { id, .. } => id.as_str(),
        IslandItem::Row { id, .. } => id.as_str(),
        IslandItem::ToolRow { id, .. } => id.as_str(),
        IslandItem::Divider { id } => id.as_str(),
        IslandItem::Spacer { id, .. } => id.as_str(),
    }
}

/// The items of the first region of that name.
pub fn scene_region<'a>(scene: &'a IslandScene, name: &str) -> (region: Option<&'a IslandRegion>)
    ensures
        match region {
            Some(region) => region_items(region_views(scene.regions@), name@) == Some(
                item_views(region.items@),
            ),
            None => region_items(region_views(scene.regions@), name@) is None,
        },
{
    let ghost all = region_views(scene.regions@);
    let mut i: usize = 0;
    assert(all.skip(0) =~= all);
    while i < scene.regions.len()
        invariant
            i <= scene.regions@.len(),
            all == region_views(scene.regions@),
            region_items(all, name@) == region_items(all.skip(i as int), name@),
        decreases scene.regions@.len() - i,
    {
        assert(all.skip(i as int)[0] == all[i as int]);
        if same(scene.regions[i].0.as_str(), name) {
            return Some(&scene.regions[i].1);
        }
        assert(all.skip(i as int).skip(1) =~= all.skip(i + 1));
        i = i + 1;
    }
    None
}

/// The first item of that name in the region of that name.
pub fn scene_item<'a>(scene: &'a IslandScene, region: &str, id: &str) -> (item: Option<
    &'a IslandItem,
>)
    ensures
        opt_item(item) == find_item(region_views(scene.regions@), region@, id@),
{
    match scene_region(scene, region) {
        Some(found) => {
            let ghost all = item_views(found.items@);
            let mut i: usize = 0;
            assert(all.skip(0) =~= all);
            while i < found.items.len()
                invariant
                    i <= found.items@.len(),
                    all == item_views(found.items@),
                    find_item(region_views(scene.regions@), region@, id@) == named_item(all, id@),
                    named_item(all, id@) == named_item(all.skip(i as int), id@),
                decreases found.items@.len() - i,
            {
                assert(all.skip(i as int)[0] == found.items@[i as int]@);
                if same(island_item_id(&found.items[i]), id) {
                    return Some(&found.items[i]);
                }
                assert(all.skip(i as int).skip(1) =~= all.skip(i + 1));
                i = i + 1;
            }
            None
        },
        None => None,
    }
}

/// The text of the item of that name.
pub fn scene_text(scene: &IslandScene, region: &str, id: &str) -> (text: Option<String>)
    ensures
        crate::text::opt_text(text) == shown_text(
            find_item(region_views(scene.regions@), region@, id@),
        ),
{
    match scene_item(scene, region, id) {
        Some(item) => match item {
            IslandItem::Label { text, .. } => Some(text.clone()),
            IslandItem::Marquee { text, .. } => Some(text.clone()),
            IslandItem::Chip { text, .. } => Some(text.clone()),
            _ => None,
        },
        None => None,
    }
}

/// The text of an item, in the compact or in the expanded layout.
pub open spec fn text_in_either(
    regions: Seq<(Seq<char>, Seq<ItemView>)>,
    compact: Seq<char>,
    expanded: Seq<char>,
    id: Seq<char>,
) -> Option<Seq<char>> {
    match shown_text(find_item(regions, compact, id)) {
        Some(text) => Some(text),
        None => shown_text(find_item(regions, expanded, id)),
    }
}

/// The text of an item, in the compact or in the expanded layout.
pub fn scene_text_in_either(scene: &IslandScene, compact: &str, expanded: &str, id: &str) -> (text:
    Option<String>)
    ensures
        crate::text::opt_text(text) == text_in_either(
            region_views(scene.regions@),
            compact@,
            expanded@,
            id@,
        ),
{
    match scene_text(scene, compact, id) {
        Some(text) => Some(text),
        None => scene_text(scene, expanded, id),
    }
}

/// The status in the middle of the bar, if the scene has one.
pub fn center_text_for(scene: &IslandScene) -> (text: Option<String>)
    ensures
        crate::text::opt_text(text) == text_in_either(
            region_views(scene.regions@),
            "center"@,
            "header_center"@,
            "status"@,
        ),
{
    scene_text_in_either(scene, "center", "header_center", "status")
}

/// How the activity dots run.
#[derive(Clone, Copy, Debug, PartialEq, Eq, Structural)]
pub struct DotChaseScene {
    pub active: bool,
    pub count: u8,
    pub speed: u8,
}

pub open spec fn dots_of(item: Option<ItemView>) -> Option<DotChaseScene> {
    match item {
        Some(ItemView::DotChase { active, count, speed, .. }) => Some(
            DotChaseScene { active, count, speed },
        ),
        _ => None,
    }
}

/// The activity dots of a scene, in the compact or in the expanded layout.
pub open spec fn scene_dots(regions: Seq<(Seq<char>, Seq<ItemView>)>) -> Option<DotChaseScene> {
    match dots_of(find_item(regions, "right"@, "activity"@)) {
        Some(dots) => Some(dots),
        None => dots_of(find_item(regions, "header_right"@, "activity"@)),
    }
}

fn dots_in(scene: &IslandScene, region: &str) -> (dots: Option<DotChaseScene>)
    ensures
        dots == dots_of(find_item(region_views(scene.regions@), region@, "activity"@)),
{
    match scene_item(scene, region, "activity") {
        Some(IslandItem::DotChase { active, count, speed, .. }) => Some(
            DotChaseScene { active: *active, count: *count, speed: *speed },
        ),
        _ => None,
    }
}

/// The activity dots of a scene.
pub fn scene_dot_chase(scene: &IslandScene) -> (dots: Option<DotChaseScene>)
    ensures
        dots == scene_dots(region_views(scene.regions@)),
{
    match dots_in(scene, "right") {
        Some(dots) => Some(dots),
        None => dots_in(scene, "header_right"),
    }
}

pub open spec fn place_of(item: Option<ItemView>) -> Option<(u16, u16)> {
    match item {
        Some(ItemView::StepCounter { index, total, .. }) => Some((index, total)),
        _ => None,
    }
}

/// The place of the step that a scene shows.
pub fn scene_step_counter(scene: &IslandScene) -> (place: Option<(u16, u16)>)
    ensures
        place == place_of(find_item(region_views(scene.regions@), "task"@, "step"@)),
{
    match scene_item(scene, "task", "step") {
        Some(IslandItem::StepCounter { index, total, .. }) => Some((*index, *total)),
        _ => None,
    }
}

pub open spec fn row_value(item: Option<ItemView>) -> Option<Seq<char>> {
    match item {
        Some(ItemView::Row { value, .. }) => Some(value),
        _ => None,
    }
}

/// The value of the row of that name.
pub fn scene_row(scene: &IslandScene, region: &str, id: &str) -> (value: Option<String>)
    ensures
        crate::text::opt_text(value) == row_value(
            find_item(region_views(scene.regions@), region@, id@),
        ),
{
    match scene_item(scene, region, id) {
        Some(IslandItem::Row { value, .. }) => Some(value.clone()),
        _ => None,
    }
}

/// One of the two rows that say which tools are used.
#[derive(Clone, Debug, PartialEq, Eq)]
pub struct SceneToolRow {
    pub label: String,
    pub tool: String,
    pub app: String,
    pub age: String,
}

#[verifier::ext_equal]
pub struct ToolRowView {
    pub label: Seq<char>,
    pub tool: Seq<char>,
    pub app: Seq<char>,
    pub age: Seq<char>,
}

impl View for SceneToolRow {
    type V = ToolRowView;

    open spec fn view(&self) -> ToolRowView {
        ToolRowView { label: self.label@, tool: self.tool@, app: self.app@, age: self.age@ }
    }
}

pub open spec fn empty_row() -> ToolRowView {
    ToolRowView {
        label: Seq::empty(),
        tool: Seq::empty(),
        app: Seq::empty(),
        age: Seq::empty(),
    }
}

/// The tool rows among the items, in order.
pub open spec fn tool_rows(items: Seq<ItemView>) -> Seq<ToolRowView>
    decreases items.len(),
{
    if items.len() == 0 {
        Seq::empty()
    } else {
        let earlier = tool_rows(items.drop_last());
        match items.last() {
            ItemView::ToolRow { label, tool, app, age, .. } => earlier.push(
                ToolRowView { label, tool, app, age },
            ),
            _ => earlier,
        }
    }
}

/// The tool rows of a scene.
pub open spec fn scene_rows(regions: Seq<(Seq<char>, Seq<ItemView>)>) -> Seq<ToolRowView> {
    match region_items(regions, "details_right"@) {
        Some(items) => tool_rows(items),
        None => Seq::empty(),
    }
}

/// Row `i`, or an empty one where there are fewer.
pub open spec fn row_or_empty(rows: Seq<ToolRowView>, i: int) -> ToolRowView {
    if 0 <= i < rows.len() {
        rows[i]
    } else {
        empty_row()
    }
}

fn blank_row() -> (row: SceneToolRow)
    ensures
        row@ == empty_row(),
{
    SceneToolRow {
        label: String::new(),
        tool: String::new(),
        app: String::new(),
        age: String::new(),
    }
}

/// The first two tool rows of a scene; empty ones where there are fewer.
pub fn scene_tool_rows(scene: &IslandScene) -> (rows: (SceneToolRow, SceneToolRow))
    ensures
        rows.0@ == row_or_empty(scene_rows(region_views(scene.regions@)), 0),
        rows.1@ == row_or_empty(scene_rows(region_views(scene.regions@)), 1),
{
    let mut first: Option<SceneToolRow> = None;
    let mut second: Option<SceneToolRow> = None;
    if let Some(region) = scene_region(scene, "details_right") {
        let ghost all = item_views(region.items@);
        let mut i: usize = 0;
        assert(all.take(0).len() == 0);
        while i < region.items.len()
            invariant
                i <= region.items@.len(),
                all == item_views(region.items@),
                first is None <==> tool_rows(all.take(i as int)).len() == 0,
                second is None <==> tool_rows(all.take(i as int)).len() <= 1,
                first matches Some(row) ==> row@ == tool_rows(all.take(i as int))[0],
                second matches Some(row) ==> row@ == tool_rows(all.take(i as int))[1],
            decreases region.items@.len() - i,
        {
            assert(all.take(i + 1).drop_last() =~= all.take(i as int));
            assert(all.take(i + 1).last() == region.items@[i as int]@);
            if let IslandItem::ToolRow { label, tool, app, age, .. } = &region.items[i] {
                let row = SceneToolRow {
                    label: label.clone(),
                    tool: tool.clone(),
                    app: app.clone(),
                    age: age.clone(),
                };
                if first.is_none() {
                    first = Some(row);
                } else if second.is_none() {
                    second = Some(row);
                }
            }
            i = i + 1;
        }
        assert(all.take(all.len() as int) =~= all);
    }
    (
        match first {
            Some(row) => row,
            None => blank_row(),
        },
        match second {
            Some(row) => row,
            None => blank_row(),
        },
    )
}

/// What a tool row says besides its label.
pub fn tool_meta_text(row: &SceneToolRow) -> (text: String)
    ensures
        text@ == row@.tool + " · "@ + row@.app + " · "@ + row@.age,
{
    let mut text = row.tool.clone();
    text.append(" · ");
    text.append(row.app.as_str());
    text.append(" · ");
    text.append(row.age.as_str());
    text
}

/// The last line of the expanded island.
#[derive(Clone, Debug, PartialEq, Eq)]
pub struct SceneFooter {
    pub elapsed: String,
    pub model: String,
    pub transport: String,
}

/// The footer of a scene: all three of its texts, or none.
pub fn scene_footer(scene: &IslandScene) -> (footer: Option<SceneFooter>)
    ensures
        ({
            let regions = region_views(scene.regions@);
            let elapsed = shown_text(find_item(regions, "footer"@, "elapsed"@));
            let model = shown_text(find_item(regions, "footer"@, "model"@));
            let transport = shown_text(find_item(regions, "footer"@, "transport"@));
            match footer {
                Some(footer) => elapsed == Some(footer.elapsed@) && model == Some(footer.model@)
                    && transport == Some(footer.transport@),
                None => elapsed is None || model is None || transport is None,
            }
        }),
{
    match (
        scene_text(scene, "footer", "elapsed"),
        scene_text(scene, "footer", "model"),
        scene_text(scene, "footer", "transport"),
    ) {
        (Some(elapsed), Some(model), Some(transport)) => Some(
            SceneFooter { elapsed, model, transport },
        ),
        _ => None,
    }
}

/// The scene has everything that the expanded island needs.
pub open spec fn fills_expanded(layout: IslandLayout, regions: Seq<(Seq<char>, Seq<ItemView>)>) -> bool {
    &&& layout == IslandLayout::Expanded
    &&& row_value(find_item(regions, "task"@, "task"@)) is Some
    &&& row_value(find_item(regions, "response"@, "response"@)) is Some
    &&& shown_text(find_item(regions, "footer"@, "elapsed"@)) is Some
    &&& shown_text(find_item(regions, "footer"@, "model"@)) is Some
    &&& shown_text(find_item(regions, "footer"@, "transport"@)) is Some
}

/// Whether the expanded island can be drawn.
pub fn scene_renders_expanded_body(scene: &IslandScene) -> (found: bool)
    ensures
        found == fills_expanded(scene.layout, region_views(scene.regions@)),
{
    scene.layout == IslandLayout::Expanded && scene_row(scene, "task", "task").is_some()
        && scene_row(scene, "response", "response").is_some() && scene_footer(scene).is_some()
}

/// A region is found by its name, the first one where several have it, and an
/// item by its identity likewise.
pub proof fn lemma_first_of_the_name_is_found(
    regions: Seq<(Seq<char>, Seq<ItemView>)>,
    items: Seq<ItemView>,
    name: Seq<char>,
    k: int,
)
    ensures
        0 <= k < regions.len() && regions[k].0 == name && (forall|i: int|
            0 <= i < k ==> (#[trigger] regions[i]).0 != name) ==> region_items(regions, name)
            == Some(regions[k].1),
        (forall|i: int| 0 <= i < regions.len() ==> (#[trigger] regions[i]).0 != name)
            ==> region_items(regions, name) is None,
        0 <= k < items.len() && item_id(items[k]) == name && (forall|i: int|
            0 <= i < k ==> item_id(#[trigger] items[i]) != name) ==> named_item(items, name) == Some(
            items[k],
        ),
        (forall|i: int| 0 <= i < items.len() ==> item_id(#[trigger] items[i]) != name)
            ==> named_item(items, name) is None,
{
    lemma_region_is_found(regions, name, k);
    lemma_item_is_found(items, name, k);
}

proof fn lemma_region_is_found(regions: Seq<(Seq<char>, Seq<ItemView>)>, name: Seq<char>, k: int)
    ensures
        0 <= k < regions.len() && regions[k].0 == name && (forall|i: int|
            0 <= i < k ==> (#[trigger] regions[i]).0 != name) ==> region_items(regions, name)
            == Some(regions[k].1),
        (forall|i: int| 0 <= i < regions.len() ==> (#[trigger] regions[i]).0 != name)
            ==> region_items(regions, name) is None,
    decreases regions.len(),
{
    if regions.len() > 0 {
        let rest = regions.skip(1);
        assert(forall|i: int| 0 <= i < rest.len() ==> #[trigger] rest[i] == regions[i + 1]);
        lemma_region_is_found(rest, name, k - 1);
        if 0 < k < regions.len() {
            assert(rest[k - 1] == regions[k]);
        }
    }
}

proof fn lemma_item_is_found(items: Seq<ItemView>, name: Seq<char>, k: int)
    ensures
        0 <= k < items.len() && item_id(items[k]) == name && (forall|i: int|
            0 <= i < k ==> item_id(#[trigger] items[i]) != name) ==> named_item(items, name) == Some(
            items[k],
        ),
        (forall|i: int| 0 <= i < items.len() ==> item_id(#[trigger] items[i]) != name)
            ==> named_item(items, name) is None,
    decreases items.len(),
{
    if items.len() > 0 {
        let rest = items.skip(1);
        assert(forall|i: int| 0 <= i < rest.len() ==> #[trigger] rest[i] == items[i + 1]);
        lemma_item_is_found(rest, name, k - 1);
        if 0 < k < items.len() {
            assert(rest[k - 1] == items[k]);
        }
    }
}

/// The rows of the tools are those among the items, in their order.
pub proof fn lemma_tool_rows_in_order(
    a: Seq<ItemView>,
    b: Seq<ItemView>,
    id: Seq<char>,
    index: Seq<char>,
    row: ToolRowView,
)
    ensures
        tool_rows(a + b) == tool_rows(a) + tool_rows(b),
        tool_rows(
            seq![
                ItemView::ToolRow {
                    id,
                    index,
                    label: row.label,
                    tool: row.tool,
                    app: row.app,
                    age: row.age,
                },
            ],
        ) == seq![row],
    decreases b.len(),
{
    let one = seq![
        ItemView::ToolRow {
            id,
            index,
            label: row.label,
            tool: row.tool,
            app: row.app,
            age: row.age,
        },
    ];
    assert(one.drop_last() =~= Seq::<ItemView>::empty());
    assert(tool_rows(one.drop_last()) =~= Seq::<ToolRowView>::empty());
    assert(tool_rows(one) =~= seq![row]);
    if b.len() == 0 {
        assert(a + b =~= a);
        assert(tool_rows(a) + tool_rows(b) =~= tool_rows(a));
    } else {
        lemma_tool_rows_in_order(a, b.drop_last(), id, index, row);
        assert((a + b).drop_last() =~= a + b.drop_last());
        assert((a + b).last() == b.last());
        assert(tool_rows(a + b) =~= tool_rows(a) + tool_rows(b));
    }
}

/// A text is looked for where the compact layout has it, and then where the
/// expanded one does.
pub proof fn lemma_text_of_either_layout(
    regions: Seq<(Seq<char>, Seq<ItemView>)>,
    compact: Seq<char>,
    expanded: Seq<char>,
    id: Seq<char>,
    text: Seq<char>,
)
    ensures
        shown_text(find_item(regions, compact, id)) == Some(text) ==> text_in_either(
            regions,
            compact,
            expanded,
            id,
        ) == Some(text),
        shown_text(find_item(regions, compact, id)) is None ==> text_in_either(
            regions,
            compact,
            expanded,
            id,
        ) == shown_text(find_item(regions, expanded, id)),
        shown_text(Some(ItemView::Label { id, text })) == Some(text),
        shown_text(Some(ItemView::Marquee { id, text })) == Some(text),
        shown_text(Some(ItemView::Chip { id, text })) == Some(text),
        shown_text(None) is None,
{
}

/// A row gives the value that it shows; nothing else has one.
pub proof fn lemma_row_gives_its_value(
    id: Seq<char>,
    index: Seq<char>,
    label: Seq<char>,
    value: Seq<char>,
    active: bool,
    text: Seq<char>,
)
    ensures
        row_value(Some(ItemView::Row { id, index, label, value, active })) == Some(value),
        row_value(Some(ItemView::Label { id, text })) is None,
        row_value(None) is None,
{
}

} // verus!
