//! The docks: dropping panels, following drags, and resizing.

use rusterm_panels::dock::{
    adjusted_drop_index, build_install_dock_drag_script, clamped_extent, drag_coordinates, drag_hint,
    hide_dock_label, panel_label, parse_dock_resize_poll_response, parse_zone, resize_coordinate,
    resize_cursor, resize_position, resize_step, resize_token, shown_drop_index, zone_name, DockDropTarget,
    DockLayout, DockStackState, DockZone, PanelId, ResizeStep,
};
use rusterm_panels::i18n::{Catalog, Language, Message};

fn stack(panels: Vec<PanelId>) -> DockStackState {
    let active = panels.first().copied();
    DockStackState { panels, active, visible: true, extent_px: 250 }
}

fn default_layout() -> DockLayout {
    DockLayout {
        left: stack(vec![PanelId::Connections, PanelId::RemoteFiles]),
        right: stack(vec![PanelId::Sessions, PanelId::History]),
        bottom: stack(vec![PanelId::Send, PanelId::EmbeddedShell, PanelId::Transfers]),
    }
}

fn parse_dock_drag_poll_response(
    response: &str,
) -> Option<(f64, f64, bool, Option<DockDropTarget>)> {
    let (x, y) = drag_coordinates(response)?;
    let numbers = x.parse::<f64>().ok().zip(y.parse::<f64>().ok());
    let report =
        rusterm_panels::dock::parse_dock_drag_poll_response(response, numbers.is_some())?;
    assert_eq!((&report.x, &report.y), (&x, &y));
    numbers.map(|(x, y)| (x, y, report.done, report.target))
}

fn finite_resize(response: &str) -> Option<(f64, bool, String)> {
    let position = resize_position(response).parse::<f64>().ok().filter(|at| at.is_finite());
    let report = parse_dock_resize_poll_response(response, position.is_some())?;
    assert_eq!(report.position, resize_position(response));
    position.map(|position| (position, report.done, report.token))
}

fn build_install_dock_resize_script(
    initial_position: f64,
    coordinate: &str,
    cursor: &str,
    token: &str,
) -> String {
    rusterm_panels::dock::build_install_dock_resize_script(
        &initial_position.to_string(),
        coordinate,
        cursor,
        token,
    )
}

fn resized_dock_extent(zone: DockZone, start: f64, extent: u16, position: f64) -> u16 {
    let moved = position - start;
    rusterm_panels::dock::resized_dock_extent(
        zone,
        (f64::from(extent) + moved).round() as i64,
        (f64::from(extent) - moved).round() as i64,
        100,
        600,
    )
}

#[test]
fn poll_response_parses_visible_and_hidden_targets() {
    assert_eq!(
        parse_dock_drag_poll_response("12.5\u{1f}30\u{1f}0\u{1f}right\u{1f}2"),
        Some((
            12.5,
            30.0,
            false,
            Some(DockDropTarget {
                zone: DockZone::Right,
                index: 2,
            }),
        ))
    );
    assert_eq!(
        parse_dock_drag_poll_response("12\u{1f}30\u{1f}1\u{1f}\u{1f}"),
        Some((12.0, 30.0, true, None))
    );
}

#[test]
fn dock_resize_poll_response_requires_a_finite_position_and_token() {
    assert_eq!(
        finite_resize("125.5\u{1f}1\u{1f}bottom:2"),
        Some((125.5, true, "bottom:2".to_owned()))
    );
    assert_eq!(finite_resize("NaN\u{1f}0\u{1f}bottom:2"), None);
    assert_eq!(finite_resize("125\u{1f}0\u{1f}"), None);
}

#[test]
fn dock_resize_script_captures_and_cleans_up_every_end_signal() {
    let script = build_install_dock_resize_script(200.0, "clientY", "row-resize", "bottom:3");
    for listener in [
        "document.addEventListener('mouseup', finishHandler, true)",
        "document.addEventListener('pointerup', finishHandler, true)",
        "document.addEventListener('pointercancel', finishHandler, true)",
        "window.addEventListener('blur', finishHandler, true)",
        "document.addEventListener('visibilitychange', visibilityHandler, true)",
        "document.addEventListener('keydown', keyHandler, true)",
    ] {
        assert!(script.contains(listener), "missing listener: {listener}");
    }
    for listener in [
        "document.removeEventListener('mouseup', finishHandler, true)",
        "document.removeEventListener('pointerup', finishHandler, true)",
        "document.removeEventListener('pointercancel', finishHandler, true)",
        "window.removeEventListener('blur', finishHandler, true)",
        "document.removeEventListener('visibilitychange', visibilityHandler, true)",
        "document.removeEventListener('keydown', keyHandler, true)",
    ] {
        assert!(script.contains(listener), "missing cleanup: {listener}");
    }
    assert!(script.contains("e.buttons === 0"));
    assert!(script.contains("document.hidden"));
    assert!(script.contains("e.key === 'Escape'"));
    assert!(script.contains("window._rusterm_dock_resize_remove = null"));
    assert!(script.contains("document.body.style.cursor = previousCursor"));
    assert!(script.contains("document.body.style.userSelect = previousUserSelect"));
}

#[test]
fn dock_resize_extent_follows_each_zone_direction() {
    assert_eq!(resized_dock_extent(DockZone::Left, 100.0, 250, 140.0), 290);
    assert_eq!(resized_dock_extent(DockZone::Right, 100.0, 250, 60.0), 290);
    assert_eq!(resized_dock_extent(DockZone::Bottom, 100.0, 250, 60.0), 290);
}

#[test]
fn same_zone_forward_move_adjusts_for_removal() {
    let layout = default_layout();
    assert_eq!(
        adjusted_drop_index(
            &layout,
            PanelId::Connections,
            DockDropTarget {
                zone: DockZone::Left,
                index: 2,
            },
        ),
        1
    );
}

#[test]
fn cross_zone_move_keeps_raw_insertion_index() {
    let layout = default_layout();
    assert_eq!(
        adjusted_drop_index(
            &layout,
            PanelId::Connections,
            DockDropTarget {
                zone: DockZone::Right,
                index: 1,
            },
        ),
        1
    );
}

#[test]
fn install_script_uses_document_capture_without_html5_drag() {
    let script = build_install_dock_drag_script(&1.0f64.to_string(), &2.0f64.to_string());
    assert!(script.contains("document.addEventListener('mousemove', moveHandler, true)"));
    assert!(script.contains("document.addEventListener('mouseup', upHandler, true)"));
    assert!(!script.contains("dragstart"));
    assert!(!script.contains("ondrop"));
}

#[test]
fn scripts_hold_what_they_are_given() {
    let drag = build_install_dock_drag_script("1.5", "2");
    assert!(drag.contains("window.__rusterm_dock_drag_pos = '1.5,2';\n"));
    let resize = build_install_dock_resize_script(7.25, "clientX", "col-resize", "left:9");
    assert!(resize.contains("window.__rusterm_dock_resize_pos = '7.25';\n"));
    assert!(resize.contains("window.__rusterm_dock_resize_token = 'left:9';\n"));
    assert!(resize.contains("document.body.style.cursor = 'col-resize';\n"));
    assert_eq!(resize.matches("e.clientX").count(), 3);
}

#[test]
fn malformed_reports_are_refused() {
    assert_eq!(parse_dock_drag_poll_response(""), None);
    assert_eq!(parse_dock_drag_poll_response("left\u{1f}2\u{1f}0\u{1f}\u{1f}"), None);
    assert_eq!(parse_dock_drag_poll_response("1\u{1f}\u{1f}0\u{1f}\u{1f}"), None);
    assert_eq!(finite_resize("1e999\u{1f}0\u{1f}bottom:2"), None);
    assert_eq!(finite_resize("here\u{1f}0\u{1f}bottom:2"), None);
    assert_eq!(resize_position(""), "");
    assert_eq!(parse_dock_drag_poll_response("1\u{1f}2\u{1f}2\u{1f}\u{1f}"), None);
    assert_eq!(parse_dock_drag_poll_response("1\u{1f}2\u{1f}0\u{1f}top\u{1f}0"), None);
    assert_eq!(parse_dock_drag_poll_response("1\u{1f}2\u{1f}0\u{1f}left\u{1f}x"), None);
    assert_eq!(parse_dock_drag_poll_response("1\u{1f}2\u{1f}0\u{1f}left\u{1f}0\u{1f}"), None);
    assert_eq!(finite_resize("1\u{1f}2\u{1f}t"), None);
    assert_eq!(finite_resize("1\u{1f}0\u{1f}t\u{1f}"), None);
}

#[test]
fn zones_read_back_from_their_names() {
    for zone in [DockZone::Left, DockZone::Right, DockZone::Bottom] {
        assert_eq!(parse_zone(zone_name(zone)), Some(zone));
    }
    assert_eq!(parse_zone("Left"), None);
}

#[test]
fn drops_land_in_the_gap() {
    let layout = default_layout();
    let at = |panel: PanelId, zone: DockZone, index: usize| {
        adjusted_drop_index(&layout, panel, DockDropTarget { zone, index })
    };
    assert_eq!(at(PanelId::Transfers, DockZone::Bottom, 0), 0);
    assert_eq!(at(PanelId::EmbeddedShell, DockZone::Bottom, 1), 1);
    assert_eq!(at(PanelId::Send, DockZone::Bottom, 99), 2);
    assert_eq!(at(PanelId::Relay, DockZone::Left, 99), 2);
    let mut panels = layout.bottom.panels.clone();
    let moved = panels.remove(0);
    panels.insert(at(PanelId::Send, DockZone::Bottom, 2), moved);
    assert_eq!(panels, vec![PanelId::EmbeddedShell, PanelId::Send, PanelId::Transfers]);
    assert_eq!(layout.zone_for(PanelId::History), Some(DockZone::Right));
    assert_eq!(layout.zone_for(PanelId::Relay), None);
    assert!(layout.stack(DockZone::Right).is_shown());
}

#[test]
fn targets_are_shown_at_their_own_zone() {
    let target = Some(DockDropTarget { zone: DockZone::Left, index: 1 });
    assert_eq!(shown_drop_index(true, target, DockZone::Left), Some(1));
    assert_eq!(shown_drop_index(true, target, DockZone::Right), None);
    assert_eq!(shown_drop_index(false, target, DockZone::Left), None);
}

#[test]
fn resizes_are_told_apart_by_their_token() {
    assert_eq!(resize_token(DockZone::Bottom, 12), "bottom:12");
    let report = parse_dock_resize_poll_response("1\u{1f}0\u{1f}left:1", true).unwrap();
    assert_eq!(resize_step(&report, DockZone::Left, 1), ResizeStep::Follow);
    assert_eq!(resize_step(&report, DockZone::Left, 11), ResizeStep::Ignore);
    let done = parse_dock_resize_poll_response("1\u{1f}1\u{1f}left:1", true).unwrap();
    assert_eq!(resize_step(&done, DockZone::Left, 1), ResizeStep::Finish);
    assert_eq!(resize_coordinate(DockZone::Bottom), "clientY");
    assert_eq!(resize_cursor(DockZone::Left), "col-resize");
}

#[test]
fn extents_stay_within_their_limits() {
    assert_eq!(clamped_extent(-5, 100, 600), 100);
    assert_eq!(clamped_extent(i64::MAX, 100, 600), 600);
    assert_eq!(resized_dock_extent(DockZone::Left, 0.0, 250, 10000.0), 600);
    assert_eq!(resized_dock_extent(DockZone::Bottom, 0.0, 250, 10000.0), 100);
    assert_eq!(resized_dock_extent(DockZone::Right, 0.0, 250, 0.5), 250);
}

#[test]
fn labels_come_from_the_catalog() {
    let message = |key: &str, text: &str| Message {
        key: key.to_string(),
        zh: text.to_string(),
        en: text.to_string(),
    };
    let catalog = Catalog {
        messages: vec![
            message("api.tab_title", "API"),
            message("dock.drag_panel", "Drag {panel}"),
            message("dock.hide_bottom", "Hide bottom"),
        ],
    };
    assert_eq!(panel_label(PanelId::Relay, Language::En, &catalog), "API");
    assert_eq!(drag_hint(PanelId::Relay, Language::En, &catalog), "Drag API");
    assert_eq!(hide_dock_label(DockZone::Bottom, Language::En, &catalog), "Hide bottom");
    assert_eq!(panel_label(PanelId::Send, Language::Zh, &catalog), "send.tab_title");
}
