use knightty::shell::PtySize;
use knightty::term::grid::{Hyperlink, SelectionMode, SelectionPoint};
use knightty::term::mouse::MouseButton as TerminalMouseButton;
use knightty::term::grid::{Cursor, GridSnapshot};
use knightty::ui::diagnostics::{hex_edges, RawApcProbe};
use knightty::ui::inline_image::CellMetrics;
use knightty::ui::input::{is_copy_shortcut, is_paste_shortcut, scroll_shortcut_for_key, Key, Modifiers, NamedKey, ScrollShortcut};
use knightty::ui::routing::{
    allowed_hyperlink_url, format_window_title, hyperlink_cursor_icon, pty_size_for_terminal,
    route_hyperlink_click, route_mouse_drag, route_mouse_wheel, should_clear_simple_click_selection,
    should_open_pending_hyperlink, startup_action_from_args, ClickTracker, CursorShape,
    format_font_list, hovered_hyperlink_id, ime_cursor_area_for_snapshot, ImeCursorArea,
    HoveredHyperlink, HyperlinkClickInput, HyperlinkClickRouting, HyperlinkUrlError, MouseDragRouting,
    PendingHyperlinkClick, ScrollDirection, StartupAction, StartupError, WheelRouting,
};

const MILLIS: u64 = 1_000_000;

#[test]
fn startup_action_defaults_to_running_app() {
    assert_eq!(
        startup_action_from_args(["knightty"].map(str::to_owned).to_vec()).unwrap(),
        StartupAction::RunApp
    );
}

#[test]
fn startup_action_accepts_list_fonts() {
    assert_eq!(
        startup_action_from_args(["knightty", "+list-fonts"].map(str::to_owned).to_vec()).unwrap(),
        StartupAction::ListFonts
    );
}

#[test]
fn startup_action_accepts_print_default_config() {
    assert_eq!(
        startup_action_from_args(["knightty", "+print-default-config"].map(str::to_owned).to_vec())
            .unwrap(),
        StartupAction::PrintDefaultConfig
    );
}

#[test]
fn startup_action_rejects_unknown_plus_action() {
    assert!(matches!(
        startup_action_from_args(["knightty", "+missing"].map(str::to_owned).to_vec()),
        Err(StartupError::UnknownAction(action)) if action == "+missing"
    ));
}

#[test]
fn pty_size_uses_live_terminal_grid_and_window_pixels() {
    let size = pty_size_for_terminal(132, 43, 1920, 1080);

    assert_eq!(size.cols, 132);
    assert_eq!(size.rows, 43);
    assert_eq!(size.pixel_width, 1920);
    assert_eq!(size.pixel_height, 1080);
}

#[test]
fn pty_size_clamps_zero_cells_and_large_pixels() {
    let size: PtySize = pty_size_for_terminal(0, usize::MAX, u32::MAX, 70_000);

    assert_eq!(size.cols, 1);
    assert_eq!(size.rows, u16::MAX);
    assert_eq!(size.pixel_width, u16::MAX);
    assert_eq!(size.pixel_height, u16::MAX);
}

#[test]
fn mouse_reporting_off_routes_drag_to_selection() {
    assert_eq!(route_mouse_drag(false, false), MouseDragRouting::Selection);
}

#[test]
fn mouse_reporting_on_without_shift_routes_drag_to_pty() {
    assert_eq!(route_mouse_drag(true, false), MouseDragRouting::Pty);
}

#[test]
fn mouse_reporting_on_with_shift_routes_drag_to_selection() {
    assert_eq!(route_mouse_drag(true, true), MouseDragRouting::Selection);
}

fn schemes<const N: usize>(schemes: [&str; N]) -> Vec<String> {
    schemes.iter().map(|scheme| (*scheme).to_owned()).collect()
}

#[test]
fn allowed_hyperlink_url_accepts_https_and_http() {
    let allowed = schemes(["https", "http"]);

    assert_eq!(
        allowed_hyperlink_url("https://example.com/path", &allowed),
        Ok("https://example.com/path".to_owned())
    );
    assert_eq!(
        allowed_hyperlink_url("http://example.com/path", &allowed),
        Ok("http://example.com/path".to_owned())
    );
}

#[test]
fn allowed_hyperlink_url_rejects_disallowed_and_invalid_urls() {
    let allowed = schemes(["https", "http"]);

    assert_eq!(
        allowed_hyperlink_url("file:///C:/Windows/win.ini", &allowed),
        Err(HyperlinkUrlError::DisallowedScheme("file".to_owned()))
    );
    assert_eq!(
        allowed_hyperlink_url("javascript:alert(1)", &allowed),
        Err(HyperlinkUrlError::DisallowedScheme("javascript".to_owned()))
    );
    assert_eq!(allowed_hyperlink_url("not a url", &allowed), Err(HyperlinkUrlError::InvalidUrl));
}

#[test]
fn allowed_hyperlink_url_rejects_empty_allowlist() {
    assert_eq!(allowed_hyperlink_url("https://example.com", &[]), Err(HyperlinkUrlError::NoAllowedSchemes));
}

fn hyperlink_click_input(
    ctrl_pressed: bool,
    open_enabled: bool,
    has_hyperlink: bool,
    selection_drag_active: bool,
    selection_active: bool,
    mouse_reporting_enabled: bool,
) -> HyperlinkClickInput {
    HyperlinkClickInput {
        left_button: true,
        ctrl_pressed,
        open_enabled,
        has_hyperlink,
        selection_drag_active,
        selection_active,
        mouse_reporting_enabled,
    }
}

fn hovered(uri: &str, cell: (usize, usize)) -> HoveredHyperlink {
    HoveredHyperlink {
        cell,
        hyperlink: Hyperlink {
            id: None,
            uri: uri.to_owned(),
        },
    }
}

#[test]
fn ctrl_click_on_hyperlink_routes_to_pending_open() {
    assert_eq!(
        route_hyperlink_click(hyperlink_click_input(true, true, true, false, false, false)),
        HyperlinkClickRouting::PendingOpen { mouse_reporting_overridden: false }
    );
}

#[test]
fn selection_suppresses_hyperlink_press_even_with_mouse_reporting() {
    assert_eq!(
        route_hyperlink_click(hyperlink_click_input(true, true, true, false, true, true)),
        HyperlinkClickRouting::ExistingMouseRouting
    );
}

#[test]
fn click_without_ctrl_does_not_open_hyperlink() {
    assert_eq!(
        route_hyperlink_click(hyperlink_click_input(true, false, true, false, false, false)),
        HyperlinkClickRouting::ExistingMouseRouting
    );
}

#[test]
fn drag_or_selection_active_prevents_hyperlink_open() {
    assert_eq!(
        route_hyperlink_click(hyperlink_click_input(true, true, true, true, false, false)),
        HyperlinkClickRouting::ExistingMouseRouting
    );
    assert_eq!(
        route_hyperlink_click(hyperlink_click_input(true, true, true, false, true, false)),
        HyperlinkClickRouting::ExistingMouseRouting
    );
}

#[test]
fn mouse_reporting_does_not_prevent_ctrl_click_hyperlink_open() {
    assert_eq!(
        route_hyperlink_click(hyperlink_click_input(true, true, true, false, false, true)),
        HyperlinkClickRouting::PendingOpen { mouse_reporting_overridden: true }
    );
}

#[test]
fn pending_hyperlink_opens_only_when_released_on_same_link_without_selection() {
    let current_hover = hovered("https://example.com", (1, 0));
    let pending = PendingHyperlinkClick { hovered: current_hover.clone() };
    let other_cell = hovered("https://example.com", (2, 0));

    assert!(should_open_pending_hyperlink(&pending, Some(&current_hover), false, false));
    assert!(!should_open_pending_hyperlink(&pending, Some(&other_cell), false, false));
    assert!(!should_open_pending_hyperlink(&pending, Some(&current_hover), true, false));
    assert!(!should_open_pending_hyperlink(&pending, Some(&current_hover), false, true));
}

#[test]
fn selection_suppresses_pending_hyperlink_release() {
    let current_hover = hovered("https://example.com", (1, 0));
    let pending = PendingHyperlinkClick { hovered: current_hover.clone() };

    assert!(!should_open_pending_hyperlink(&pending, Some(&current_hover), false, true));
}

#[test]
fn simple_click_without_drag_clears_selection_after_release() {
    let point = SelectionPoint { col: 1, row: 0 };

    assert!(should_clear_simple_click_selection(Some(point), Some(point), SelectionMode::Simple, false));
}

#[test]
fn drag_or_expanded_selection_is_not_cleared_after_release() {
    let anchor = SelectionPoint { col: 1, row: 0 };
    let focus = SelectionPoint { col: 3, row: 0 };

    assert!(!should_clear_simple_click_selection(Some(anchor), Some(focus), SelectionMode::Simple, true));
    assert!(!should_clear_simple_click_selection(Some(anchor), Some(anchor), SelectionMode::Word, false));
    assert!(!should_clear_simple_click_selection(Some(anchor), Some(anchor), SelectionMode::Line, false));
}

#[test]
fn hyperlink_hover_updates_cursor_state() {
    assert_eq!(hyperlink_cursor_icon(true, false), CursorShape::Pointer);
    assert_eq!(hyperlink_cursor_icon(false, false), CursorShape::Default);
    assert_eq!(hyperlink_cursor_icon(true, true), CursorShape::Default);
}

#[test]
fn click_tracker_detects_double_and_triple_clicks() {
    let mut tracker = ClickTracker::default();
    let point = SelectionPoint { col: 2, row: 1 };
    let now = 5_000 * MILLIS;

    assert_eq!(tracker.record_click(point, now), SelectionMode::Simple);
    assert_eq!(tracker.record_click(point, now + 100 * MILLIS), SelectionMode::Word);
    assert_eq!(tracker.record_click(point, now + 200 * MILLIS), SelectionMode::Line);
}

#[test]
fn click_tracker_resets_after_timeout_or_cell_change() {
    let mut tracker = ClickTracker::default();
    let point = SelectionPoint { col: 2, row: 1 };
    let other = SelectionPoint { col: 3, row: 1 };
    let now = 5_000 * MILLIS;

    assert_eq!(tracker.record_click(point, now), SelectionMode::Simple);
    assert_eq!(tracker.record_click(point, now + 600 * MILLIS), SelectionMode::Simple);
    assert_eq!(tracker.record_click(other, now + 700 * MILLIS), SelectionMode::Simple);
}

#[test]
fn primary_wheel_without_mouse_reporting_routes_to_scrollback() {
    assert_eq!(
        route_mouse_wheel(false, false, Some(ScrollDirection::Up), 9),
        WheelRouting::Scrollback { direction: ScrollDirection::Up, lines: 9 }
    );
    assert_eq!(
        route_mouse_wheel(false, false, Some(ScrollDirection::Down), 3),
        WheelRouting::Scrollback { direction: ScrollDirection::Down, lines: 3 }
    );
}

#[test]
fn mouse_reporting_routes_wheel_to_pty_mouse_event() {
    assert_eq!(
        route_mouse_wheel(true, true, Some(ScrollDirection::Up), 3),
        WheelRouting::PtyMouse(TerminalMouseButton::WheelUp)
    );
    assert_eq!(
        route_mouse_wheel(false, true, Some(ScrollDirection::Down), 3),
        WheelRouting::PtyMouse(TerminalMouseButton::WheelDown)
    );
}

#[test]
fn alternate_wheel_without_mouse_reporting_is_noop() {
    assert_eq!(route_mouse_wheel(true, false, Some(ScrollDirection::Up), 3), WheelRouting::Noop);
}

#[test]
fn empty_terminal_title_formats_as_default_window_title() {
    assert_eq!(format_window_title(""), "knightty");
}

#[test]
fn non_empty_terminal_title_formats_with_app_suffix() {
    assert_eq!(format_window_title("build logs"), "build logs - knightty");
}

#[test]
fn probe_counts_markers_across_read_boundaries_once() {
    let mut probe = RawApcProbe::default();

    assert_eq!(probe.feed(b"text\x1b_"), (0, 0));
    assert_eq!(probe.feed(b"Gq=0;payload\x1b"), (1, 0));
    assert_eq!(probe.feed(b"\\tail"), (0, 1));
    assert_eq!(probe.feed(b"\x1b_Gx\x1b\\"), (1, 1));
}

#[test]
fn hex_preview_is_bounded_to_short_edges() {
    let bytes = (0_u8..64).collect::<Vec<_>>();
    let (head, tail) = hex_edges(&bytes);

    assert_eq!(head.split_whitespace().count(), 16);
    assert_eq!(tail.split_whitespace().count(), 16);
    assert!(head.starts_with("00 01 02"));
    assert!(tail.ends_with("3d 3e 3f"));
}

const SHIFT: Modifiers = Modifiers { shift: true, control: false, alt: false, super_key: false };
const CONTROL: Modifiers = Modifiers { shift: false, control: true, alt: false, super_key: false };
const CONTROL_SHIFT: Modifiers = Modifiers { shift: true, control: true, alt: false, super_key: false };

fn snapshot_with_cursor(x: usize, y: usize, visible: bool) -> GridSnapshot {
    GridSnapshot {
        cols: 10,
        rows: 5,
        cells: vec![Default::default(); 50],
        hyperlinks: Vec::new(),
        selection_rects: Vec::new(),
        image_placements: Vec::new(),
        cursor: Cursor { x, y, visible },
    }
}

#[test]
fn font_list_output_uses_plain_family_names() {
    let output = format_font_list(&["CaskaydiaCove Nerd Font".to_owned(), "Inter".to_owned()]);

    assert_eq!(output, "CaskaydiaCove Nerd Font\nInter\n");
}

#[test]
fn ime_cursor_area_uses_visible_cursor_metrics_and_padding() {
    let metrics = CellMetrics { width: 11, height: 23 };

    assert_eq!(
        ime_cursor_area_for_snapshot(&snapshot_with_cursor(3, 2, true), metrics, 5, 7),
        Some(ImeCursorArea { x: 38, y: 53, width: 11, height: 23 })
    );
}

#[test]
fn ime_cursor_area_is_none_when_cursor_is_hidden() {
    assert_eq!(
        ime_cursor_area_for_snapshot(&snapshot_with_cursor(0, 0, false), CellMetrics { width: 8, height: 16 }, 0, 0),
        None
    );
}

#[test]
fn ime_cursor_area_saturates() {
    let area = ime_cursor_area_for_snapshot(&snapshot_with_cursor(9, 4, true), CellMetrics { width: u32::MAX, height: 2 }, 1, 1)
        .unwrap();
    assert_eq!((area.x, area.y), (u32::MAX, 9));
}

#[test]
fn ctrl_shift_v_is_paste_shortcut() {
    assert!(is_paste_shortcut(&Key::Character("v".into()), CONTROL_SHIFT));
    assert!(is_paste_shortcut(&Key::Character("V".into()), CONTROL_SHIFT));
    assert!(!is_paste_shortcut(&Key::Character("v".into()), CONTROL));
}

#[test]
fn shift_insert_is_paste_shortcut() {
    assert!(is_paste_shortcut(&Key::Named(NamedKey::Insert), SHIFT));
    assert!(!is_paste_shortcut(&Key::Named(NamedKey::Insert), CONTROL_SHIFT));
}

#[test]
fn ctrl_shift_c_is_copy_shortcut() {
    assert!(is_copy_shortcut(&Key::Character("c".into()), CONTROL_SHIFT));
    assert!(is_copy_shortcut(&Key::Character("C".into()), CONTROL_SHIFT));
}

#[test]
fn ctrl_c_is_not_copy_shortcut() {
    assert!(!is_copy_shortcut(&Key::Character("c".into()), CONTROL));
}

#[test]
fn ctrl_shift_page_keys_are_scroll_shortcuts() {
    let modifiers = CONTROL_SHIFT;

    assert_eq!(
        scroll_shortcut_for_key(&Key::Named(NamedKey::PageUp), modifiers),
        Some(ScrollShortcut::PageUp)
    );
    assert_eq!(
        scroll_shortcut_for_key(&Key::Named(NamedKey::PageDown), modifiers),
        Some(ScrollShortcut::PageDown)
    );
    assert_eq!(
        scroll_shortcut_for_key(&Key::Named(NamedKey::Home), modifiers),
        Some(ScrollShortcut::Top)
    );
    assert_eq!(
        scroll_shortcut_for_key(&Key::Named(NamedKey::End), modifiers),
        Some(ScrollShortcut::Bottom)
    );
}

#[test]
fn scroll_shortcuts_require_ctrl_shift_without_alt_or_super() {
    assert_eq!(scroll_shortcut_for_key(&Key::Named(NamedKey::PageUp), SHIFT), None);
    assert_eq!(
        scroll_shortcut_for_key(
            &Key::Named(NamedKey::PageUp),
            Modifiers { alt: true, ..CONTROL_SHIFT }
        ),
        None
    );
}

#[test]
fn sanitized_terminal_title_is_formatted_without_extra_changes() {
    let title = knightty::term::sanitize::sanitize_window_title("clean\x01 title");

    assert_eq!(format_window_title(&title), "clean title - knightty");
}

#[test]
fn hovered_link_is_underlined_only_while_the_cell_still_shows_it() {
    let link = Hyperlink { id: None, uri: "https://example.com".to_owned() };
    let mut snapshot = snapshot_with_cursor(0, 0, false);
    snapshot.hyperlinks.push(link.clone());
    snapshot.cells[1 * 10 + 3].hyperlink = Some(0);
    let hovered = HoveredHyperlink { cell: (3, 1), hyperlink: link.clone() };

    assert_eq!(hovered_hyperlink_id(true, false, Some(&hovered), &snapshot), Some(0));
    assert_eq!(hovered_hyperlink_id(false, false, Some(&hovered), &snapshot), None);
    assert_eq!(hovered_hyperlink_id(true, true, Some(&hovered), &snapshot), None);
    assert_eq!(hovered_hyperlink_id(true, false, None, &snapshot), None);

    let elsewhere = HoveredHyperlink { cell: (4, 1), hyperlink: link.clone() };
    assert_eq!(hovered_hyperlink_id(true, false, Some(&elsewhere), &snapshot), None);
    let outside = HoveredHyperlink { cell: (10, 1), hyperlink: link.clone() };
    assert_eq!(hovered_hyperlink_id(true, false, Some(&outside), &snapshot), None);
    let other = HoveredHyperlink { cell: (3, 1), hyperlink: Hyperlink { id: Some("x".to_owned()), uri: link.uri.clone() } };
    assert_eq!(hovered_hyperlink_id(true, false, Some(&other), &snapshot), None);
}

#[test]
fn allowed_url_validation_remains_scheme_based() {
    let allowed = ["https".to_owned(), "http".to_owned()];

    assert_eq!(
        allowed_hyperlink_url("https://example.com", &allowed),
        Ok("https://example.com/".to_owned())
    );
}

#[test]
fn javascript_links_are_not_opened() {
    let allowed = ["https".to_owned(), "http".to_owned()];
    assert!(allowed_hyperlink_url("javascript:alert(1)", &allowed).is_err());
}

#[test]
fn invalid_urls_are_not_opened() {
    let allowed = ["https".to_owned(), "http".to_owned()];
    assert!(allowed_hyperlink_url("not a url", &allowed).is_err());
}
