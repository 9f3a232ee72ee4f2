//! The docks at the window's edges: their panels, dropping a panel, and resizing.

use vstd::prelude::*;

use crate::i18n::{Catalog, Language};
use crate::number::{
    decimal, decimal_text, lemma_decimal_parsed, parse_unsigned, parsed,
};
use crate::search::{is_char, lemma_split_some, split_on, split_text};
use crate::text::{same, texts};

verus! {

/// An edge of the window.
#[derive(Clone, Copy, PartialEq, Eq, Structural, Debug)]
pub enum DockZone {
    Left,
    Right,
    Bottom,
}

/// A panel that can be docked.
#[derive(Clone, Copy, PartialEq, Eq, Structural, Debug)]
pub enum PanelId {
    Connections,
    RemoteFiles,
    Sessions,
    History,
    Send,
    EmbeddedShell,
    Transfers,
    Relay,
}

/// The panels at one edge.
#[derive(Clone, Debug, PartialEq)]
pub struct DockStackState {
    pub panels: Vec<PanelId>,
    pub active: Option<PanelId>,
    pub visible: bool,
    pub extent_px: u16,
}

/// The panels at all edges.
#[derive(Clone, Debug, PartialEq)]
pub struct DockLayout {
    pub left: DockStackState,
    pub right: DockStackState,
    pub bottom: DockStackState,
}

/// Where a panel is dropped: an edge and a place among its panels.
#[derive(Clone, Copy, PartialEq, Eq, Structural, Debug)]
pub struct DockDropTarget {
    pub zone: DockZone,
    pub index: usize,
}

// ---------------------------------------------------------------------------------------------
// Labels
// ---------------------------------------------------------------------------------------------

/// The key of a panel's label.
pub open spec fn label_key(panel: PanelId) -> Seq<char> {
    match panel {
        PanelId::Connections => "connections.title"@,
        PanelId::RemoteFiles => "remote_files.title"@,
        PanelId::Sessions => "sessions.title"@,
        PanelId::History => "history.title"@,
        PanelId::Send => "send.tab_title"@,
        PanelId::EmbeddedShell => "shell.tab_title"@,
        PanelId::Transfers => "transfers.tab_title"@,
        PanelId::Relay => "api.tab_title"@,
    }
}

/// The label of a panel.
pub fn panel_label(panel: PanelId, language: Language, catalog: &Catalog) -> (r: String)
    ensures
        r@ == catalog.text(language, label_key(panel)),
        r@ == catalog.text(
            language,
            match panel {
                PanelId::Connections => "connections.title"@,
                PanelId::RemoteFiles => "remote_files.title"@,
                PanelId::Sessions => "sessions.title"@,
                PanelId::History => "history.title"@,
                PanelId::Send => "send.tab_title"@,
                PanelId::EmbeddedShell => "shell.tab_title"@,
                PanelId::Transfers => "transfers.tab_title"@,
                PanelId::Relay => "api.tab_title"@,
            },
        ),
{
    let key = match panel {
        PanelId::Connections => "connections.title",
        PanelId::RemoteFiles => "remote_files.title",
        PanelId::Sessions => "sessions.title",
        PanelId::History => "history.title",
        PanelId::Send => "send.tab_title",
        PanelId::EmbeddedShell => "shell.tab_title",
        PanelId::Transfers => "transfers.tab_title",
        PanelId::Relay => "api.tab_title",
    };
    catalog.t_for(language, key)
}

/// The hint on a panel's tab.
pub fn drag_hint(panel: PanelId, language: Language, catalog: &Catalog) -> (r: String)
    ensures
        r@ == catalog.text_with(
            language,
            "dock.drag_panel"@,
            "panel"@,
            catalog.text(language, label_key(panel)),
        ),
{
    let label = panel_label(panel, language, catalog);
    catalog.tf_for(language, "dock.drag_panel", "panel", label.as_str())
}

/// The label of the button that hides an edge's panels.
pub fn hide_dock_label(zone: DockZone, language: Language, catalog: &Catalog) -> (r: String)
    ensures
        r@ == catalog.text(
            language,
            match zone {
                DockZone::Left => "dock.hide_left"@,
                DockZone::Right => "dock.hide_right"@,
                DockZone::Bottom => "dock.hide_bottom"@,
            },
        ),
{
    let key = match zone {
        DockZone::Left => "dock.hide_left",
        DockZone::Right => "dock.hide_right",
        DockZone::Bottom => "dock.hide_bottom",
    };
    catalog.t_for(language, key)
}

/// The name of an edge.
pub open spec fn name_of_zone(zone: DockZone) -> Seq<char> {
    match zone {
        DockZone::Left => "left"@,
        DockZone::Right => "right"@,
        DockZone::Bottom => "bottom"@,
    }
}

/// The name of an edge.
pub fn zone_name(zone: DockZone) -> (r: &'static str)
    ensures
        r@ == name_of_zone(zone),
{
    match zone {
        DockZone::Left => "left",
        DockZone::Right => "right",
        DockZone::Bottom => "bottom",
    }
}

/// The edge of a name.
pub open spec fn zone_of_name(name: Seq<char>) -> Option<DockZone> {
    if name == "left"@ {
        Some(DockZone::Left)
    } else if name == "right"@ {
        Some(DockZone::Right)
    } else if name == "bottom"@ {
        Some(DockZone::Bottom)
    } else {
        None
    }
}

/// The edge of a name.
pub fn parse_zone(value: &str) -> (r: Option<DockZone>)
    ensures
        r == zone_of_name(value@),
{
    if same(value, "left") {
        Some(DockZone::Left)
    } else if same(value, "right") {
        Some(DockZone::Right)
    } else if same(value, "bottom") {
        Some(DockZone::Bottom)
    } else {
        None
    }
}

/// The name of an edge reads back as that edge.
pub proof fn law_zone_name_reads_back(zone: DockZone)
    ensures
        zone_of_name(name_of_zone(zone)) == Some(zone),
{
    reveal_strlit("left");
    reveal_strlit("right");
    reveal_strlit("bottom");
    assert("left"@.len() == 4 && "right"@.len() == 5 && "bottom"@.len() == 6);
}

// ---------------------------------------------------------------------------------------------
// Dropping a panel
// ---------------------------------------------------------------------------------------------

fn panel_position(panels: &Vec<PanelId>, panel: PanelId) -> (r: Option<usize>)
    ensures
        r is Some <==> panels@.contains(panel),
        r matches Some(at) ==> first_position(panels@, panel, at as int),
{
    for i in 0..panels.len()
        invariant
            forall|j: int| 0 <= j < i ==> panels@[j] != panel,
    {
        if panels[i] == panel {
            return Some(i);
        }
    }
    None
}

/// Whether a panel is first found at a place.
pub open spec fn first_position(panels: Seq<PanelId>, panel: PanelId, at: int) -> bool {
    0 <= at < panels.len() && panels[at] == panel && forall|j: int|
        0 <= j < at ==> panels[j] != panel
}

impl DockLayout {
    /// The panels at an edge.
    pub open spec fn stack_of(self, zone: DockZone) -> DockStackState {
        match zone {
            DockZone::Left => self.left,
            DockZone::Right => self.right,
            DockZone::Bottom => self.bottom,
        }
    }

    /// The first edge that has a panel.
    pub open spec fn zone_of(self, panel: PanelId) -> Option<DockZone> {
        if self.left.panels@.contains(panel) {
            Some(DockZone::Left)
        } else if self.right.panels@.contains(panel) {
            Some(DockZone::Right)
        } else if self.bottom.panels@.contains(panel) {
            Some(DockZone::Bottom)
        } else {
            None
        }
    }

    /// The panels at an edge.
    pub fn stack(&self, zone: DockZone) -> (r: &DockStackState)
        ensures
            *r == self.stack_of(zone),
            zone == DockZone::Left ==> *r == self.left,
            zone == DockZone::Right ==> *r == self.right,
            zone == DockZone::Bottom ==> *r == self.bottom,
    {
        match zone {
            DockZone::Left => &self.left,
            DockZone::Right => &self.right,
            DockZone::Bottom => &self.bottom,
        }
    }

    /// The first edge that has a panel.
    pub fn zone_for(&self, panel: PanelId) -> (r: Option<DockZone>)
        ensures
            r == self.zone_of(panel),
    {
        if panel_position(&self.left.panels, panel).is_some() {
            Some(DockZone::Left)
        } else if panel_position(&self.right.panels, panel).is_some() {
            Some(DockZone::Right)
        } else if panel_position(&self.bottom.panels, panel).is_some() {
            Some(DockZone::Bottom)
        } else {
            None
        }
    }
}

/// The place of a gap among some panels once the panel at `source` is taken out.
pub open spec fn gap_after_removal(source: int, gap: int) -> int {
    if source < gap {
        gap - 1
    } else {
        gap
    }
}

/// The gap that a target means: behind the last panel at most.
pub open spec fn gap_of(layout: DockLayout, target: DockDropTarget) -> int {
    let count = layout.stack_of(target.zone).panels@.len() as int;
    if target.index < count {
        target.index as int
    } else {
        count
    }
}

/// The place at which a dropped panel is put in. Where it moves along its own edge it is taken
/// out first.
pub fn adjusted_drop_index(layout: &DockLayout, panel: PanelId, target: DockDropTarget) -> (r: usize)
    ensures
        layout.zone_of(panel) != Some(target.zone) ==> r == gap_of(*layout, target),
        layout.zone_of(panel) == Some(target.zone) ==> forall|source: int|
            #[trigger]
            first_position(layout.stack_of(target.zone).panels@, panel, source) ==> r
                == gap_after_removal(source, gap_of(*layout, target)),
        r <= layout.stack_of(target.zone).panels@.len(),
        layout.zone_of(panel) == Some(target.zone) ==> r < layout.stack_of(
            target.zone,
        ).panels@.len(),
{
    let panels = &layout.stack(target.zone).panels;
    let mut index: usize = if target.index < panels.len() {
        target.index
    } else {
        panels.len()
    };
    if layout.zone_for(panel) == Some(target.zone) {
        if let Some(source) = panel_position(panels, panel) {
            if source < index {
                index = index - 1;
            }
            proof {
                assert forall|other: int|
                    #[trigger] first_position(panels@, panel, other) implies other == source by {
                    if other < source {
                        assert(panels@[other] != panel);
                    }
                }
            }
        }
    }
    index
}

/// A panel that moves along its edge lands in the gap it was dropped at: what stood before the
/// gap stands before it, what stood behind the gap stands behind it.
pub proof fn law_dropped_in_the_gap(panels: Seq<PanelId>, source: int, gap: int, i: int)
    requires
        0 <= source < panels.len(),
        0 <= gap <= panels.len(),
        0 <= i < panels.len(),
        i != source,
    ensures
        0 <= gap_after_removal(source, gap) < panels.len(),
        ({
            let at = gap_after_removal(source, gap);
            let moved = panels.remove(source).insert(at, panels[source]);
            let rest = if i < source {
                i
            } else {
                i - 1
            };
            let place = if rest < at {
                rest
            } else {
                rest + 1
            };
            &&& moved.len() == panels.len()
            &&& moved[at] == panels[source]
            &&& moved[place] == panels[i]
            &&& place < at <==> i < gap
        }),
{
}

/// Where a zone shows that a dragged panel would be put in.
pub fn shown_drop_index(dragging: bool, target: Option<DockDropTarget>, zone: DockZone) -> (r: Option<
    usize,
>)
    ensures
        r == (if !dragging {
            None
        } else {
            match target {
                Some(aim) if aim.zone == zone => Some(aim.index),
                _ => None,
            }
        }),
{
    if !dragging {
        return None;
    }
    match target {
        Some(aim) => {
            if aim.zone == zone {
                Some(aim.index)
            } else {
                None
            }
        },
        None => None,
    }
}

impl DockStackState {
    /// Whether an edge is shown: it is visible and has panels.
    pub open spec fn shown(self) -> bool {
        self.visible && self.panels@.len() > 0
    }

    /// Whether an edge is shown. One that is not takes dropped panels at the window's rim.
    pub fn is_shown(&self) -> (r: bool)
        ensures
            r == self.shown(),
    {
        self.visible && self.panels.len() > 0
    }
}

// ---------------------------------------------------------------------------------------------
// Following a drag
// ---------------------------------------------------------------------------------------------

/// What the page reports of a drag. The coordinates are numbers as the page writes them.
#[derive(Clone, Debug, PartialEq)]
pub struct DockDragReport {
    pub x: String,
    pub y: String,
    pub done: bool,
    pub target: Option<DockDropTarget>,
}

/// What separates the fields of a report.
pub const FIELD_SEPARATOR: char = '\u{1f}';

/// A mark that is on or off.
pub open spec fn mark(text: Seq<char>) -> Option<bool> {
    if text == "0"@ {
        Some(false)
    } else if text == "1"@ {
        Some(true)
    } else {
        None
    }
}

fn parse_mark(text: &str) -> (r: Option<bool>)
    ensures
        r == mark(text@),
{
    if same(text, "0") {
        Some(false)
    } else if same(text, "1") {
        Some(true)
    } else {
        None
    }
}

/// The target of a report: none where it names no edge, and no report where it names an unknown
/// one or no place.
pub open spec fn reported_target(zone: Seq<char>, index: Seq<char>) -> Option<
    Option<DockDropTarget>,
> {
    if zone.len() == 0 {
        Some(None)
    } else {
        match (zone_of_name(zone), parsed(index, usize::MAX as nat)) {
            (Some(edge), Some(at)) => Some(
                Some(DockDropTarget { zone: edge, index: at as usize }),
            ),
            _ => None,
        }
    }
}

/// Whether a text reports a drag: two coordinates, a mark whether it ended, an edge and a place.
pub open spec fn reports_drag(fields: Seq<Seq<char>>) -> bool {
    fields.len() == 5 && mark(fields[2]) is Some && reported_target(fields[3], fields[4]) is Some
}

/// The coordinates in what the page reports of a drag, as they are written.
pub fn drag_coordinates(response: &str) -> (r: Option<(String, String)>)
    ensures
        ({
            let fields = split_on(response@, FIELD_SEPARATOR);
            match r {
                Some(texts) => fields.len() >= 2 && texts.0@ == fields[0] && texts.1@ == fields[1],
                None => fields.len() < 2,
            }
        }),
{
    let fields = split_text(response, FIELD_SEPARATOR);
    proof {
        assert(texts(fields@).len() == fields@.len());
        assert forall|i: int| 0 <= i < fields@.len() implies #[trigger] texts(fields@)[i]
            == fields@[i]@ by {}
    }
    if fields.len() < 2 {
        return None;
    }
    Some((fields[0].clone(), fields[1].clone()))
}

/// Reads what the page reports of a drag. `are_numbers` tells whether both coordinates read as
/// numbers; where they do not there is no report.
pub fn parse_dock_drag_poll_response(response: &str, are_numbers: bool) -> (r: Option<
    DockDragReport,
>)
    ensures
        ({
            let fields = split_on(response@, FIELD_SEPARATOR);
            &&& r is Some <==> are_numbers && reports_drag(fields)
            &&& r matches Some(report) ==> {
                &&& report.x@ == fields[0]
                &&& report.y@ == fields[1]
                &&& Some(report.done) == mark(fields[2])
                &&& Some(report.target) == reported_target(fields[3], fields[4])
            }
        }),
{
    let fields = split_text(response, FIELD_SEPARATOR);
    proof {
        assert(texts(fields@).len() == fields@.len());
        assert forall|i: int| 0 <= i < fields@.len() implies #[trigger] texts(fields@)[i]
            == fields@[i]@ by {}
    }
    if !are_numbers || fields.len() != 5 {
        return None;
    }
    let done = match parse_mark(fields[2].as_str()) {
        Some(done) => done,
        None => {
            return None;
        },
    };
    let target = if fields[3].as_str().is_empty() {
        None
    } else {
        let zone = match parse_zone(fields[3].as_str()) {
            Some(zone) => zone,
            None => {
                return None;
            },
        };
        match parse_unsigned(fields[4].as_str(), usize::MAX as u64) {
            Some(at) => Some(DockDropTarget { zone, index: at as usize }),
            None => {
                return None;
            },
        }
    };
    Some(DockDragReport { x: fields[0].clone(), y: fields[1].clone(), done, target })
}

/// The script that follows a drag, up to the first coordinate.
pub const DRAG_SCRIPT_HEAD: &'static str = "(function() {\n\
window.__rusterm_dock_drag_pos = '";

/// The script that follows a drag, after the second coordinate.
pub const DRAG_SCRIPT_TAIL: &'static str = "';\n\
window.__rusterm_dock_drag_done = false;\n\
if (window._rusterm_dock_drag_remove) { window._rusterm_dock_drag_remove(); }\n\
var previousWebkitUserSelect = document.body.style.webkitUserSelect;\n\
var previousUserSelect = document.body.style.userSelect;\n\
document.body.style.webkitUserSelect = 'none';\n\
document.body.style.userSelect = 'none';\n\
if (window.getSelection) { window.getSelection().removeAllRanges(); }\n\
var moveHandler = function(e) {\n\
window.__rusterm_dock_drag_pos = e.clientX + ',' + e.clientY;\n\
e.preventDefault();\n\
};\n\
var upHandler = function(e) {\n\
window.__rusterm_dock_drag_pos = e.clientX + ',' + e.clientY;\n\
window.__rusterm_dock_drag_done = true;\n\
if (window._rusterm_dock_drag_remove) {\n\
window._rusterm_dock_drag_remove();\n\
window._rusterm_dock_drag_remove = null;\n\
}\n\
};\n\
document.addEventListener('mousemove', moveHandler, true);\n\
document.addEventListener('mouseup', upHandler, true);\n\
window._rusterm_dock_drag_remove = function() {\n\
document.removeEventListener('mousemove', moveHandler, true);\n\
document.removeEventListener('mouseup', upHandler, true);\n\
document.body.style.webkitUserSelect = previousWebkitUserSelect;\n\
document.body.style.userSelect = previousUserSelect;\n\
if (window.getSelection) { window.getSelection().removeAllRanges(); }\n\
};\n\
})()";

/// The script that follows a drag from its first position on.
pub fn build_install_dock_drag_script(initial_x: &str, initial_y: &str) -> (r: String)
    ensures
        r@ == DRAG_SCRIPT_HEAD@ + initial_x@ + ","@ + initial_y@ + DRAG_SCRIPT_TAIL@,
{
    let mut out = String::from_str(DRAG_SCRIPT_HEAD);
    out.append(initial_x);
    out.append(",");
    out.append(initial_y);
    out.append(DRAG_SCRIPT_TAIL);
    out
}

// ---------------------------------------------------------------------------------------------
// Resizing
// ---------------------------------------------------------------------------------------------

/// What the page reports of a resize. The position is a number as the page writes it.
#[derive(Clone, Debug, PartialEq)]
pub struct DockResizeReport {
    pub position: String,
    pub done: bool,
    pub token: String,
}

/// Whether a text reports a resize: a position, a mark whether it ended, and a token.
pub open spec fn reports_resize(fields: Seq<Seq<char>>) -> bool {
    fields.len() == 3 && mark(fields[1]) is Some && fields[2].len() > 0
}

/// The position in what the page reports of a resize, as it is written.
pub fn resize_position(response: &str) -> (r: String)
    ensures
        r@ == split_on(response@, FIELD_SEPARATOR)[0],
{
    let fields = split_text(response, FIELD_SEPARATOR);
    proof {
        lemma_split_some(response@, is_char(FIELD_SEPARATOR));
        assert(texts(fields@).len() == fields@.len());
        assert(texts(fields@)[0] == fields@[0]@);
    }
    fields[0].clone()
}

/// Reads what the page reports of a resize. `is_finite` tells whether the position reads as a
/// finite number; where it does not there is no report.
pub fn parse_dock_resize_poll_response(response: &str, is_finite: bool) -> (r: Option<
    DockResizeReport,
>)
    ensures
        ({
            let fields = split_on(response@, FIELD_SEPARATOR);
            &&& r is Some <==> is_finite && reports_resize(fields)
            &&& r matches Some(report) ==> {
                &&& report.position@ == fields[0]
                &&& Some(report.done) == mark(fields[1])
                &&& report.token@ == fields[2]
            }
        }),
{
    let fields = split_text(response, FIELD_SEPARATOR);
    proof {
        assert(texts(fields@).len() == fields@.len());
        assert forall|i: int| 0 <= i < fields@.len() implies #[trigger] texts(fields@)[i]
            == fields@[i]@ by {}
    }
    if !is_finite || fields.len() != 3 || fields[2].as_str().is_empty() {
        return None;
    }
    match parse_mark(fields[1].as_str()) {
        Some(done) => Some(
            DockResizeReport { position: fields[0].clone(), done, token: fields[2].clone() },
        ),
        None => None,
    }
}

/// The coordinate that a resize follows.
pub fn resize_coordinate(zone: DockZone) -> (r: &'static str)
    ensures
        r@ == (if zone == DockZone::Bottom {
            "clientY"@
        } else {
            "clientX"@
        }),
{
    match zone {
        DockZone::Bottom => "clientY",
        _ => "clientX",
    }
}

/// The cursor during a resize.
pub fn resize_cursor(zone: DockZone) -> (r: &'static str)
    ensures
        r@ == (if zone == DockZone::Bottom {
            "row-resize"@
        } else {
            "col-resize"@
        }),
{
    match zone {
        DockZone::Bottom => "row-resize",
        _ => "col-resize",
    }
}

/// What tells one resize from any other: the edge and its number.
pub open spec fn token_of(zone: DockZone, generation: u64) -> Seq<char> {
    name_of_zone(zone) + ":"@ + decimal(generation as nat)
}

/// What tells one resize from any other.
pub fn resize_token(zone: DockZone, generation: u64) -> (r: String)
    ensures
        r@ == token_of(zone, generation),
{
    let mut out = zone_name(zone).to_owned();
    out.append(":");
    out.append(decimal_text(generation).as_str());
    out
}

/// Two resizes with the same token are the same.
pub proof fn law_resize_tokens_distinct(a: DockZone, m: u64, b: DockZone, n: u64)
    requires
        token_of(a, m) == token_of(b, n),
    ensures
        a == b,
        m == n,
{
    reveal_strlit("left");
    reveal_strlit("right");
    reveal_strlit("bottom");
    assert("left"@[0] == 'l' && "right"@[0] == 'r' && "bottom"@[0] == 'b');
    assert(token_of(a, m)[0] == name_of_zone(a)[0]);
    assert(token_of(b, n)[0] == name_of_zone(b)[0]);
    assert(a == b);
    let head = name_of_zone(a) + ":"@;
    assert(token_of(a, m).skip(head.len() as int) == decimal(m as nat));
    assert(token_of(b, n).skip(head.len() as int) == decimal(n as nat));
    lemma_decimal_parsed(m as nat, u64::MAX as nat);
    lemma_decimal_parsed(n as nat, u64::MAX as nat);
}

/// What is to be done with a report of a resize.
#[derive(Clone, Copy, PartialEq, Eq, Structural, Debug)]
pub enum ResizeStep {
    /// It belongs to another resize.
    Ignore,
    /// The extent follows it.
    Follow,
    /// The extent follows it a last time and is handed on.
    Finish,
}

/// What is to be done with a report of a resize.
pub fn resize_step(report: &DockResizeReport, zone: DockZone, generation: u64) -> (r: ResizeStep)
    ensures
        r == (if report.token@ != token_of(zone, generation) {
            ResizeStep::Ignore
        } else if report.done {
            ResizeStep::Finish
        } else {
            ResizeStep::Follow
        }),
{
    let expected = resize_token(zone, generation);
    if !same(report.token.as_str(), expected.as_str()) {
        ResizeStep::Ignore
    } else if report.done {
        ResizeStep::Finish
    } else {
        ResizeStep::Follow
    }
}

/// A number within limits.
pub open spec fn within(value: int, minimum: int, maximum: int) -> int {
    if value < minimum {
        minimum
    } else if value > maximum {
        maximum
    } else {
        value
    }
}

/// The extent of a panel within its limits.
pub fn clamped_extent(value: i64, minimum: u16, maximum: u16) -> (r: u16)
    requires
        minimum <= maximum,
    ensures
        r == within(value as int, minimum as int, maximum as int),
{
    if value < minimum as i64 {
        minimum
    } else if value > maximum as i64 {
        maximum
    } else {
        value as u16
    }
}

/// The extent of an edge during a resize. Of the two extents that the movement gives, added and
/// taken away, the left edge follows the first, the right and the bottom edge the second.
pub fn resized_dock_extent(
    zone: DockZone,
    added: i64,
    taken_away: i64,
    minimum: u16,
    maximum: u16,
) -> (r: u16)
    requires
        minimum <= maximum,
    ensures
        r == within(
            if zone == DockZone::Left {
                added as int
            } else {
                taken_away as int
            },
            minimum as int,
            maximum as int,
        ),
{
    match zone {
        DockZone::Left => clamped_extent(added, minimum, maximum),
        _ => clamped_extent(taken_away, minimum, maximum),
    }
}

/// The script that follows a resize, up to the position.
pub const RESIZE_SCRIPT_POSITION: &'static str = "(function() {\n\
if (window._rusterm_dock_resize_remove) { window._rusterm_dock_resize_remove(); window._rusterm_dock_resize_remove = null; }\n\
window.__rusterm_dock_resize_pos = '";

/// Between the position and the token.
pub const RESIZE_SCRIPT_TOKEN: &'static str = "';\n\
window.__rusterm_dock_resize_done = false;\n\
window.__rusterm_dock_resize_token = '";

/// Between the token and the cursor.
pub const RESIZE_SCRIPT_CURSOR: &'static str = "';\n\
var previousCursor = document.body.style.cursor;\n\
var previousWebkitUserSelect = document.body.style.webkitUserSelect;\n\
var previousUserSelect = document.body.style.userSelect;\n\
document.body.style.cursor = '";

/// Between the cursor and the coordinate that ends the resize.
pub const RESIZE_SCRIPT_FINISH: &'static str = "';\n\
document.body.style.webkitUserSelect = 'none';\n\
document.body.style.userSelect = 'none';\n\
if (window.getSelection) { window.getSelection().removeAllRanges(); }\n\
var removeListeners = function() {\n\
document.removeEventListener('mousemove', moveHandler, true);\n\
document.removeEventListener('mouseup', finishHandler, true);\n\
document.removeEventListener('pointerup', finishHandler, true);\n\
document.removeEventListener('pointercancel', finishHandler, true);\n\
window.removeEventListener('blur', finishHandler, true);\n\
document.removeEventListener('visibilitychange', visibilityHandler, true);\n\
document.removeEventListener('keydown', keyHandler, true);\n\
document.body.style.cursor = previousCursor;\n\
document.body.style.webkitUserSelect = previousWebkitUserSelect;\n\
document.body.style.userSelect = previousUserSelect;\n\
};\n\
var finishHandler = function(e) {\n\
if (e && Number.isFinite(e.";

/// Between the two mentions of that coordinate.
pub const RESIZE_SCRIPT_FINISH_SET: &'static str = ")) { window.__rusterm_dock_resize_pos = String(e.";

/// Up to the coordinate that the resize follows.
pub const RESIZE_SCRIPT_MOVE: &'static str = "); }\n\
window.__rusterm_dock_resize_done = true;\n\
if (e && e.cancelable) { e.preventDefault(); }\n\
var remove = window._rusterm_dock_resize_remove;\n\
window._rusterm_dock_resize_remove = null;\n\
if (remove) { remove(); }\n\
};\n\
var moveHandler = function(e) {\n\
if (typeof e.buttons === 'number' && e.buttons === 0) { finishHandler(e); return; }\n\
window.__rusterm_dock_resize_pos = String(e.";

/// After the coordinate that the resize follows.
pub const RESIZE_SCRIPT_TAIL: &'static str = ");\n\
if (e.cancelable) { e.preventDefault(); }\n\
};\n\
var visibilityHandler = function() { if (document.hidden) { finishHandler(null); } };\n\
var keyHandler = function(e) { if (e.key === 'Escape') { finishHandler(e); } };\n\
window._rusterm_dock_resize_remove = removeListeners;\n\
document.addEventListener('mousemove', moveHandler, true);\n\
document.addEventListener('mouseup', finishHandler, true);\n\
document.addEventListener('pointerup', finishHandler, true);\n\
document.addEventListener('pointercancel', finishHandler, true);\n\
window.addEventListener('blur', finishHandler, true);\n\
document.addEventListener('visibilitychange', visibilityHandler, true);\n\
document.addEventListener('keydown', keyHandler, true);\n\
})()";

/// The script that follows a resize from its first position on, up to any signal that ends it.
pub fn build_install_dock_resize_script(
    initial_position: &str,
    coordinate: &str,
    cursor: &str,
    token: &str,
) -> (r: String)
    ensures
        r@ == RESIZE_SCRIPT_POSITION@ + initial_position@ + RESIZE_SCRIPT_TOKEN@ + token@
            + RESIZE_SCRIPT_CURSOR@ + cursor@ + RESIZE_SCRIPT_FINISH@ + coordinate@
            + RESIZE_SCRIPT_FINISH_SET@ + coordinate@ + RESIZE_SCRIPT_MOVE@ + coordinate@
            + RESIZE_SCRIPT_TAIL@,
{
    let mut out = String::from_str(RESIZE_SCRIPT_POSITION);
    out.append(initial_position);
    out.append(RESIZE_SCRIPT_TOKEN);
    out.append(token);
    out.append(RESIZE_SCRIPT_CURSOR);
    out.append(cursor);
    out.append(RESIZE_SCRIPT_FINISH);
    out.append(coordinate);
    out.append(RESIZE_SCRIPT_FINISH_SET);
    out.append(coordinate);
    out.append(RESIZE_SCRIPT_MOVE);
    out.append(coordinate);
    out.append(RESIZE_SCRIPT_TAIL);
    out
}

/// Each edge is named by its own word, and no other word names one.
pub proof fn law_zone_names(zone: DockZone, name: Seq<char>)
    ensures
        zone_of_name(name) == Some(DockZone::Left) <==> name == "left"@,
        zone_of_name(name) == Some(DockZone::Right) <==> name == "right"@,
        zone_of_name(name) == Some(DockZone::Bottom) <==> name == "bottom"@,
        zone_of_name(name) == Some(zone) <==> name == name_of_zone(zone),
{
    reveal_strlit("left");
    reveal_strlit("right");
    reveal_strlit("bottom");
    assert("left"@.len() == 4 && "right"@.len() == 5 && "bottom"@.len() == 6);
}

/// A panel is at the edge that holds it; where several do, at the left one before the right one
/// and at the right one before the bottom.
pub proof fn law_zone_of_a_panel(layout: DockLayout, panel: PanelId)
    ensures
        layout.zone_of(panel) == Some(DockZone::Left) <==> layout.left.panels@.contains(panel),
        layout.zone_of(panel) == Some(DockZone::Right) <==> layout.right.panels@.contains(panel)
            && !layout.left.panels@.contains(panel),
        layout.zone_of(panel) == Some(DockZone::Bottom) <==> layout.bottom.panels@.contains(panel)
            && !layout.left.panels@.contains(panel) && !layout.right.panels@.contains(panel),
        layout.stack_of(DockZone::Left) == layout.left,
        layout.stack_of(DockZone::Right) == layout.right,
        layout.stack_of(DockZone::Bottom) == layout.bottom,
{
}

/// A panel is dropped at the place that is aimed at, and not behind the last of the edge's panels.
pub proof fn law_gap_is_at_the_edge(layout: DockLayout, target: DockDropTarget)
    ensures
        gap_of(layout, target) <= layout.stack_of(target.zone).panels@.len(),
        target.index <= layout.stack_of(target.zone).panels@.len() ==> gap_of(layout, target)
            == target.index,
        target.index > layout.stack_of(target.zone).panels@.len() ==> gap_of(layout, target)
            == layout.stack_of(target.zone).panels@.len(),
{
}

/// An edge is shown exactly when it is visible and holds a panel.
pub proof fn law_shown(stack: DockStackState)
    ensures
        stack.shown() <==> stack.visible && exists|panel: PanelId| stack.panels@.contains(panel),
{
    if stack.panels@.len() > 0 {
        assert(stack.panels@.contains(stack.panels@[0]));
    }
}

/// A mark is a zero or a one, and nothing else: the one tells that the button was released.
pub proof fn law_marks(text: Seq<char>)
    ensures
        mark(text) == Some(true) <==> text == "1"@,
        mark(text) == Some(false) <==> text == "0"@,
{
    reveal_strlit("0");
    reveal_strlit("1");
    assert("0"@[0] == '0' && "1"@[0] == '1');
}

/// The target of a report reads back: the word of an edge and a place name this edge and this
/// place, an empty word names none, and any other word or place makes no report.
pub proof fn law_reported_target(zone: DockZone, index: usize, word: Seq<char>, place: Seq<char>)
    ensures
        reported_target(name_of_zone(zone), decimal(index as nat)) == Some(
            Some(DockDropTarget { zone, index }),
        ),
        word.len() == 0 ==> reported_target(word, place) == Some(None::<DockDropTarget>),
        word.len() > 0 && word != "left"@ && word != "right"@ && word != "bottom"@
            ==> reported_target(word, place) is None,
        word.len() > 0 && parsed(place, usize::MAX as nat) is None ==> reported_target(word, place)
            is None,
{
    reveal_strlit("left");
    reveal_strlit("right");
    reveal_strlit("bottom");
    law_zone_name_reads_back(zone);
    lemma_decimal_parsed(index as nat, usize::MAX as nat);
    assert(name_of_zone(zone).len() > 0);
}

/// A report of a drag has five fields, with a mark in the third and a target in the last two; one
/// of a resize has three, with a mark in the second and a token in the last.
pub proof fn law_report_fields(fields: Seq<Seq<char>>)
    ensures
        reports_drag(fields) <==> fields.len() == 5 && (fields[2] == "0"@ || fields[2] == "1"@) && (
        fields[3].len() == 0 || ((fields[3] == "left"@ || fields[3] == "right"@ || fields[3]
            == "bottom"@) && parsed(fields[4], usize::MAX as nat) is Some)),
        reports_resize(fields) <==> fields.len() == 3 && (fields[1] == "0"@ || fields[1] == "1"@)
            && fields[2].len() > 0,
{
}

/// A token is the word of its edge, a colon and its number.
pub proof fn law_resize_token(zone: DockZone, generation: u64)
    ensures
        zone == DockZone::Left ==> token_of(zone, generation) == "left:"@ + decimal(
            generation as nat,
        ),
        zone == DockZone::Right ==> token_of(zone, generation) == "right:"@ + decimal(
            generation as nat,
        ),
        zone == DockZone::Bottom ==> token_of(zone, generation) == "bottom:"@ + decimal(
            generation as nat,
        ),
{
    reveal_strlit(":");
    reveal_strlit("left");
    reveal_strlit("right");
    reveal_strlit("bottom");
    reveal_strlit("left:");
    reveal_strlit("right:");
    reveal_strlit("bottom:");
    assert("left"@ + ":"@ == "left:"@);
    assert("right"@ + ":"@ == "right:"@);
    assert("bottom"@ + ":"@ == "bottom:"@);
}

/// A bounded value lies between the bounds, is the value itself where that lies between them, and
/// the nearest bound otherwise.
pub proof fn law_within(value: int, minimum: int, maximum: int)
    requires
        minimum <= maximum,
    ensures
        minimum <= within(value, minimum, maximum) <= maximum,
        minimum <= value <= maximum ==> within(value, minimum, maximum) == value,
        value < minimum ==> within(value, minimum, maximum) == minimum,
        value > maximum ==> within(value, minimum, maximum) == maximum,
{
}

} // verus!
