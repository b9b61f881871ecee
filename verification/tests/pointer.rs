use knightty::term::grid::{Hyperlink, SelectionMode, SelectionPoint};
use knightty::term::mouse::{MouseButton, MouseEventKind};
use knightty::ui::pointer::{PointerCommand, PointerContext, PointerState};
use knightty::ui::routing::HoveredHyperlink;

fn link(uri: &str, col: usize) -> HoveredHyperlink {
    HoveredHyperlink {
        cell: (col, 0),
        hyperlink: Hyperlink {
            id: None,
            uri: uri.to_owned(),
        },
    }
}

fn at(col: usize) -> PointerContext {
    PointerContext {
        ctrl: false,
        shift: false,
        open_enabled: true,
        has_selection: false,
        mouse_reporting: false,
        hovered: None,
        cursor_point: Some(SelectionPoint { col, row: 0 }),
        now_nanos: 0,
    }
}

fn ctrl_on_link(uri: &str, col: usize) -> PointerContext {
    PointerContext {
        ctrl: true,
        hovered: Some(link(uri, col)),
        ..at(col)
    }
}

const LEFT: Option<MouseButton> = Some(MouseButton::Left);

#[test]
fn ctrl_click_press_and_release_on_same_link_opens_url() {
    let mut state = PointerState::new();

    assert!(state.press(LEFT, ctrl_on_link("https://example.com", 1)).is_empty());
    let commands = state.release(LEFT, ctrl_on_link("https://example.com", 1));

    assert_eq!(
        commands,
        vec![PointerCommand::OpenHyperlink(link("https://example.com", 1).hyperlink)]
    );
    assert_eq!(state.pressed_button, None);
}

#[test]
fn ctrl_click_press_on_one_link_and_release_on_another_does_not_open() {
    let mut state = PointerState::new();
    assert!(state.press(LEFT, ctrl_on_link("https://one.example", 0)).is_empty());

    let moved = state.moved(ctrl_on_link("https://two.example", 4));
    assert_eq!(
        moved,
        vec![
            PointerCommand::SetHover(Some(link("https://two.example", 4))),
            PointerCommand::WriteMouseEvent(MouseEventKind::Move, None),
        ]
    );
    assert!(state.pending_click.is_none());

    let commands = state.release(LEFT, ctrl_on_link("https://two.example", 4));
    assert_eq!(
        commands,
        vec![PointerCommand::WriteMouseEvent(MouseEventKind::Release, LEFT)]
    );
}

#[test]
fn left_drag_creates_selection() {
    let mut state = PointerState::new();

    let press = state.press(LEFT, at(0));
    assert_eq!(
        press,
        vec![
            PointerCommand::ClearSelectionIfOutside,
            PointerCommand::BeginSelection(SelectionPoint { col: 0, row: 0 }, SelectionMode::Simple),
        ]
    );
    let moved = state.moved(at(4));
    assert_eq!(
        moved,
        vec![
            PointerCommand::SetHover(None),
            PointerCommand::UpdateSelection(SelectionPoint { col: 4, row: 0 }),
        ]
    );
    let release = state.release(LEFT, at(4));
    assert_eq!(
        release,
        vec![
            PointerCommand::UpdateSelection(SelectionPoint { col: 4, row: 0 }),
            PointerCommand::EndSelection { clear: false },
            PointerCommand::RefreshHover,
        ]
    );
    assert!(!state.drag_active);
}

#[test]
fn simple_click_clears_its_empty_selection() {
    let mut state = PointerState::new();
    state.press(LEFT, at(2));
    let release = state.release(LEFT, at(2));
    assert_eq!(release[1], PointerCommand::EndSelection { clear: true });
}

#[test]
fn double_click_selects_words() {
    let mut state = PointerState::new();
    state.press(LEFT, at(2));
    state.release(LEFT, at(2));
    let second = PointerContext {
        now_nanos: 100_000_000,
        ..at(2)
    };
    let press = state.press(LEFT, second.clone());
    assert_eq!(
        press[1],
        PointerCommand::BeginSelection(SelectionPoint { col: 2, row: 0 }, SelectionMode::Word)
    );
    let release = state.release(LEFT, second);
    assert_eq!(release[1], PointerCommand::EndSelection { clear: false });
}

#[test]
fn dragging_over_hyperlink_selects_text_instead_of_opening_url() {
    let mut state = PointerState::new();
    let on_link = PointerContext {
        hovered: Some(link("https://example.com", 0)),
        ..at(0)
    };
    let press = state.press(LEFT, on_link);
    assert!(matches!(press[1], PointerCommand::BeginSelection(..)));
    state.moved(at(4));
    let release = state.release(LEFT, at(4));
    assert!(release
        .iter()
        .all(|command| !matches!(command, PointerCommand::OpenHyperlink(_))));
}

#[test]
fn existing_selection_suppresses_hyperlink_opening() {
    let mut state = PointerState::new();
    let ctx = PointerContext {
        has_selection: true,
        ..ctrl_on_link("https://example.com", 3)
    };
    let press = state.press(LEFT, ctx.clone());
    assert_eq!(press[0], PointerCommand::ClearSelectionIfOutside);
    let release = state.release(LEFT, ctx);
    assert!(release
        .iter()
        .all(|command| !matches!(command, PointerCommand::OpenHyperlink(_))));
}

#[test]
fn mouse_reporting_sends_presses_and_releases_to_the_application() {
    let mut state = PointerState::new();
    let reporting = PointerContext {
        mouse_reporting: true,
        ..at(1)
    };
    assert_eq!(
        state.press(Some(MouseButton::Right), reporting.clone()),
        vec![PointerCommand::WriteMouseEvent(MouseEventKind::Press, Some(MouseButton::Right))]
    );
    assert_eq!(
        state.moved(reporting.clone()),
        vec![
            PointerCommand::SetHover(None),
            PointerCommand::WriteMouseEvent(MouseEventKind::Drag, Some(MouseButton::Right)),
        ]
    );
    assert_eq!(
        state.release(Some(MouseButton::Right), reporting),
        vec![PointerCommand::WriteMouseEvent(MouseEventKind::Release, Some(MouseButton::Right))]
    );
    assert_eq!(state.pressed_button, None);
}

#[test]
fn press_off_the_grid_holds_no_button() {
    let mut state = PointerState::new();
    let off = PointerContext {
        cursor_point: None,
        ..at(0)
    };
    assert_eq!(state.press(LEFT, off), vec![PointerCommand::ClearSelectionIfOutside]);
    assert_eq!(state.pressed_button, None);
    assert!(!state.drag_active);
}
