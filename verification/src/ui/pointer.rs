//! Mouse button and motion handling of the input router as a state
//! machine: each event updates the pointer state and lists what has to be
//! done to the terminal, the window and the PTY, in order.

use vstd::prelude::*;
use crate::term::grid::{Hyperlink, SelectionMode, SelectionPoint};
use crate::term::mouse::{MouseButton, MouseEventKind};
use crate::ui::routing::{
    route_hyperlink_click, route_mouse_drag, should_clear_simple_click_selection,
    should_open_pending_hyperlink, spec_route_hyperlink_click, same_hover, ClickTracker,
    HoveredHyperlink, HyperlinkClickInput, HyperlinkClickRouting, MouseDragRouting,
    PendingHyperlinkClick, mode_for_count, next_click_count,
};

verus! {

/// What the router remembers between pointer events.
#[derive(Clone, Debug, Eq, PartialEq)]
pub struct PointerState {
    /// The button held down and reported to the application, if any.
    pub pressed_button: Option<MouseButton>,
    /// A selection is being dragged.
    pub drag_active: bool,
    pub drag_anchor: Option<SelectionPoint>,
    pub drag_mode: Option<SelectionMode>,
    pub drag_moved: bool,
    /// A Ctrl-click on a link waiting for the release.
    pub pending_click: Option<PendingHyperlinkClick>,
    pub click_tracker: ClickTracker,
}

impl PointerState {
    pub fn new() -> (s: Self)
        ensures
            s.pressed_button is None,
            !s.drag_active,
            s.drag_anchor is None,
            s.drag_mode is None,
            !s.drag_moved,
            s.pending_click is None,
            s.click_tracker == (ClickTracker { last_point: None, last_at: None, count: 0 }),
    {
        PointerState {
            pressed_button: None,
            drag_active: false,
            drag_anchor: None,
            drag_mode: None,
            drag_moved: false,
            pending_click: None,
            click_tracker: ClickTracker::default(),
        }
    }
}

/// What the terminal, the configuration and the window say at the moment
/// of a pointer event.
#[derive(Clone, Debug, Eq, PartialEq)]
pub struct PointerContext {
    pub ctrl: bool,
    pub shift: bool,
    /// Links may be opened (Ctrl-click enabled and some scheme allowed).
    pub open_enabled: bool,
    /// The terminal has a selection.
    pub has_selection: bool,
    /// The application asked for mouse reports.
    pub mouse_reporting: bool,
    /// The link under the pointer.
    pub hovered: Option<HoveredHyperlink>,
    /// The logical point under the pointer.
    pub cursor_point: Option<SelectionPoint>,
    /// Monotonic time of the event in nanoseconds.
    pub now_nanos: u64,
}

/// Something to do in response to a pointer event.
#[derive(Clone, Debug, Eq, PartialEq)]
pub enum PointerCommand {
    /// Clear the selection unless the pointer is inside it.
    ClearSelectionIfOutside,
    /// Start a selection and update the pointer shape.
    BeginSelection(SelectionPoint, SelectionMode),
    /// Move the selection's focus.
    UpdateSelection(SelectionPoint),
    /// Stop dragging the selection, and clear it when asked.
    EndSelection { clear: bool },
    /// Open a link (subject to the scheme check).
    OpenHyperlink(Hyperlink),
    /// Show this link as hovered (or none).
    SetHover(Option<HoveredHyperlink>),
    /// Recompute the hovered link from the pointer position.
    RefreshHover,
    /// Report a mouse event to the application at the pointer's cell.
    WriteMouseEvent(MouseEventKind, Option<MouseButton>),
}

pub open spec fn click_input(ctx: PointerContext, state: PointerState) -> HyperlinkClickInput {
    HyperlinkClickInput {
        left_button: true,
        ctrl_pressed: ctx.ctrl,
        open_enabled: ctx.open_enabled,
        has_hyperlink: ctx.hovered is Some,
        selection_drag_active: state.drag_active,
        selection_active: ctx.has_selection,
        mouse_reporting_enabled: ctx.mouse_reporting,
    }
}

/// A left press that goes to a hovered link instead of the terminal.
pub open spec fn press_holds_link(state: PointerState, ctx: PointerContext, button: Option<MouseButton>) -> bool {
    button == Some(MouseButton::Left)
        && spec_route_hyperlink_click(click_input(ctx, state)) != HyperlinkClickRouting::ExistingMouseRouting
}

/// A left press that starts a selection drag.
pub open spec fn press_selects(ctx: PointerContext, button: Option<MouseButton>) -> bool {
    button == Some(MouseButton::Left) && (ctx.shift || !ctx.mouse_reporting)
}

pub open spec fn pending_for(hovered: Option<HoveredHyperlink>) -> Option<PendingHyperlinkClick> {
    match hovered {
        Some(h) => Some(PendingHyperlinkClick { hovered: h }),
        None => None,
    }
}

/// What a press does: `after` and `commands` are the state and commands
/// that pressing `button` in `before` under `ctx` gives.
pub open spec fn press_post(before: PointerState, ctx: PointerContext, button: Option<MouseButton>, after: PointerState, commands: Seq<PointerCommand>) -> bool {
    &&& (press_holds_link(before, ctx, button) ==> {
        &&& after.pressed_button is None
        &&& !after.drag_active
        &&& after.drag_anchor is None
        &&& after.drag_mode is None
        &&& !after.drag_moved
        &&& after.pending_click == pending_for(ctx.hovered)
        &&& after.click_tracker == before.click_tracker
        &&& commands.len() == 0
    })
    &&& (!press_holds_link(before, ctx, button) ==> {
        let clear: Seq<PointerCommand> = if button == Some(MouseButton::Left) {
            seq![PointerCommand::ClearSelectionIfOutside]
        } else {
            Seq::empty()
        };
        &&& after.pending_click is None
        &&& if press_selects(ctx, button) {
            match ctx.cursor_point {
                None => {
                    &&& after.pressed_button is None
                    &&& after.drag_active == before.drag_active
                    &&& after.drag_anchor == before.drag_anchor
                    &&& after.drag_mode == before.drag_mode
                    &&& after.drag_moved == before.drag_moved
                    &&& after.click_tracker == before.click_tracker
                    &&& commands =~= clear
                },
                Some(p) => {
                    let count = next_click_count(before.click_tracker, p, ctx.now_nanos);
                    &&& after.pressed_button == button
                    &&& after.drag_active
                    &&& after.drag_anchor == Some(p)
                    &&& after.drag_mode == Some(mode_for_count(count))
                    &&& !after.drag_moved
                    &&& after.click_tracker == (ClickTracker {
                        last_point: Some(p),
                        last_at: Some(ctx.now_nanos),
                        count,
                    })
                    &&& commands =~= clear.push(PointerCommand::BeginSelection(p, mode_for_count(count)))
                },
            }
        } else {
            &&& after.pressed_button == button
            &&& !after.drag_active
            &&& after.drag_anchor == before.drag_anchor
            &&& after.drag_mode == before.drag_mode
            &&& after.drag_moved == before.drag_moved
            &&& after.click_tracker == before.click_tracker
            &&& commands =~= clear.push(PointerCommand::WriteMouseEvent(MouseEventKind::Press, button))
        }
    })
}

/// What a release does.
pub open spec fn release_post(before: PointerState, ctx: PointerContext, button: Option<MouseButton>, after: PointerState, commands: Seq<PointerCommand>) -> bool {
    &&& (button == Some(MouseButton::Left) && before.pending_click is Some ==> {
        let pending = before.pending_click->0;
        let opens = !before.drag_active && !ctx.has_selection && match ctx.hovered {
            Some(h) => same_hover(h, pending.hovered),
            None => false,
        };
        &&& after.pending_click is None
        &&& after.pressed_button is None
        &&& after.drag_active == before.drag_active
        &&& commands =~= (if opens {
            seq![PointerCommand::OpenHyperlink(pending.hovered.hyperlink)]
        } else {
            Seq::empty()
        })
    })
    &&& (!(button == Some(MouseButton::Left) && before.pending_click is Some) && before.drag_active
        && button == Some(MouseButton::Left) ==> {
        let moved = before.drag_moved || match ctx.cursor_point {
            Some(p) => before.drag_anchor != Some(p),
            None => false,
        };
        let focus = match ctx.cursor_point {
            Some(p) => Some(p),
            None => before.drag_anchor,
        };
        let mode = match before.drag_mode {
            Some(m) => m,
            None => SelectionMode::Simple,
        };
        let clear = mode == SelectionMode::Simple && !moved && before.drag_anchor is Some
            && before.drag_anchor == focus;
        let update: Seq<PointerCommand> = match ctx.cursor_point {
            Some(p) => seq![PointerCommand::UpdateSelection(p)],
            None => Seq::empty(),
        };
        &&& !after.drag_active
        &&& after.drag_anchor is None
        &&& after.drag_mode is None
        &&& !after.drag_moved
        &&& after.pressed_button is None
        &&& after.pending_click == before.pending_click
        &&& commands =~= update + seq![PointerCommand::EndSelection { clear }, PointerCommand::RefreshHover]
    })
    &&& (!(button == Some(MouseButton::Left) && before.pending_click is Some)
        && !(before.drag_active && button == Some(MouseButton::Left)) ==> {
        let reported = match button {
            Some(b) => Some(b),
            None => before.pressed_button,
        };
        &&& commands =~= seq![PointerCommand::WriteMouseEvent(MouseEventKind::Release, reported)]
        &&& after.pressed_button == (if button == before.pressed_button || button is None {
            None
        } else {
            before.pressed_button
        })
        &&& after.drag_active == before.drag_active
        &&& after.pending_click == before.pending_click
    })
    &&& (after.click_tracker == before.click_tracker)
}

/// What a pointer motion does.
pub open spec fn moved_post(before: PointerState, ctx: PointerContext, after: PointerState, commands: Seq<PointerCommand>) -> bool {
    &&& (before.drag_active ==> {
        &&& after.drag_moved == (before.drag_moved || match ctx.cursor_point {
            Some(p) => before.drag_anchor != Some(p),
            None => false,
        })
        &&& after.pending_click == before.pending_click
        &&& commands =~= seq![PointerCommand::SetHover(None)] + match ctx.cursor_point {
            Some(p) => seq![PointerCommand::UpdateSelection(p)],
            None => Seq::<PointerCommand>::empty(),
        }
    })
    &&& (!before.drag_active ==> {
        let keeps_pending = match (before.pending_click, ctx.hovered) {
            (Some(pending), Some(h)) => same_hover(h, pending.hovered),
            _ => false,
        };
        &&& after.pending_click == (if keeps_pending { before.pending_click } else { None })
        &&& after.drag_moved == before.drag_moved
        &&& commands =~= seq![PointerCommand::SetHover(ctx.hovered)] + if keeps_pending {
            Seq::<PointerCommand>::empty()
        } else if before.pressed_button is Some {
            seq![PointerCommand::WriteMouseEvent(MouseEventKind::Drag, before.pressed_button)]
        } else {
            seq![PointerCommand::WriteMouseEvent(MouseEventKind::Move, None)]
        }
    })
    &&& (after.pressed_button == before.pressed_button)
    &&& (after.drag_active == before.drag_active)
    &&& (after.drag_anchor == before.drag_anchor)
    &&& (after.drag_mode == before.drag_mode)
    &&& (after.click_tracker == before.click_tracker)
}

impl PointerState {
    /// A button was pressed.
    ///
    /// A left Ctrl-click on a link (when opening is enabled and nothing is
    /// selected or being selected) only remembers the link and resets the
    /// drag state. Otherwise a left press first clears a selection it falls
    /// outside of; then, when drags select (no mouse reporting, or Shift
    /// held), it starts a selection whose mode follows the click count, or
    /// releases the button when the pointer is off the grid; any other press
    /// is reported to the application.
    pub fn press(&mut self, button: Option<MouseButton>, ctx: PointerContext) -> (commands: Vec<PointerCommand>)
        ensures
            press_post(*old(self), ctx, button, *final(self), commands@),
    {
        self.pending_click = None;
        let mut commands: Vec<PointerCommand> = Vec::new();
        let left = match button {
            Some(MouseButton::Left) => true,
            _ => false,
        };
        if left {
            let routing = route_hyperlink_click(HyperlinkClickInput {
                left_button: true,
                ctrl_pressed: ctx.ctrl,
                open_enabled: ctx.open_enabled,
                has_hyperlink: ctx.hovered.is_some(),
                selection_drag_active: self.drag_active,
                selection_active: ctx.has_selection,
                mouse_reporting_enabled: ctx.mouse_reporting,
            });
            let existing = match routing {
                HyperlinkClickRouting::ExistingMouseRouting => true,
                _ => false,
            };
            if !existing {
                self.pressed_button = None;
                self.drag_active = false;
                self.drag_anchor = None;
                self.drag_mode = None;
                self.drag_moved = false;
                self.pending_click = match ctx.hovered {
                    Some(hovered) => Some(PendingHyperlinkClick { hovered }),
                    None => None,
                };
                return commands;
            }
            commands.push(PointerCommand::ClearSelectionIfOutside);
        }

        self.pressed_button = button;
        let selects = match route_mouse_drag(ctx.mouse_reporting, ctx.shift) {
            MouseDragRouting::Selection => true,
            MouseDragRouting::Pty => false,
        };
        if left && selects {
            let point = match ctx.cursor_point {
                Some(point) => point,
                None => {
                    self.pressed_button = None;
                    return commands;
                },
            };
            let mode = self.click_tracker.record_click(point, ctx.now_nanos);
            self.drag_active = true;
            self.drag_anchor = Some(point);
            self.drag_mode = Some(mode);
            self.drag_moved = false;
            commands.push(PointerCommand::BeginSelection(point, mode));
            return commands;
        }

        self.drag_active = false;
        commands.push(PointerCommand::WriteMouseEvent(MouseEventKind::Press, button));
        commands
    }

    /// A button was released.
    ///
    /// A left release with a link waiting opens it when the pointer is
    /// still on the same link and nothing is selected; a left release while
    /// dragging a selection moves its focus to the pointer, ends it (clearing
    /// a simple click that did not move) and refreshes the hovered link; any
    /// other release is reported to the application, and forgets the held
    /// button when it is that button (or an unknown one).
    pub fn release(&mut self, button: Option<MouseButton>, ctx: PointerContext) -> (commands: Vec<PointerCommand>)
        ensures
            release_post(*old(self), ctx, button, *final(self), commands@),
    {
        let mut commands: Vec<PointerCommand> = Vec::new();
        let left = match button {
            Some(MouseButton::Left) => true,
            _ => false,
        };
        if left && self.pending_click.is_some() {
            let pending = match self.pending_click.take() {
                Some(pending) => pending,
                None => return commands,
            };
            self.pressed_button = None;
            let opens = should_open_pending_hyperlink(&pending, ctx.hovered.as_ref(), self.drag_active, ctx.has_selection);
            if opens {
                commands.push(PointerCommand::OpenHyperlink(pending.hovered.hyperlink));
            }
            return commands;
        }

        if self.drag_active && left {
            let release_point = ctx.cursor_point;
            match release_point {
                Some(point) => {
                    if self.drag_anchor != Some(point) {
                        self.drag_moved = true;
                    }
                    commands.push(PointerCommand::UpdateSelection(point));
                },
                None => {},
            }
            let focus = match release_point {
                Some(point) => Some(point),
                None => self.drag_anchor,
            };
            let mode = match self.drag_mode {
                Some(mode) => mode,
                None => SelectionMode::Simple,
            };
            let clear = should_clear_simple_click_selection(self.drag_anchor, focus, mode, self.drag_moved);
            commands.push(PointerCommand::EndSelection { clear });
            self.drag_active = false;
            self.drag_anchor = None;
            self.drag_mode = None;
            self.drag_moved = false;
            self.pressed_button = None;
            commands.push(PointerCommand::RefreshHover);
            return commands;
        }

        let reported = match button {
            Some(b) => Some(b),
            None => self.pressed_button,
        };
        commands.push(PointerCommand::WriteMouseEvent(MouseEventKind::Release, reported));
        if button == self.pressed_button || button.is_none() {
            self.pressed_button = None;
        }
        commands
    }

    /// The pointer moved to a new position.
    ///
    /// While dragging a selection the hover is cleared and the selection's
    /// focus follows the pointer. Otherwise a waiting link is forgotten when
    /// the pointer leaves it, the hovered link is updated, and, unless a
    /// link is still waiting, the motion is reported to the application (as
    /// a drag of the held button, or a plain move).
    pub fn moved(&mut self, ctx: PointerContext) -> (commands: Vec<PointerCommand>)
        ensures
            moved_post(*old(self), ctx, *final(self), commands@),
    {
        let mut commands: Vec<PointerCommand> = Vec::new();
        if self.drag_active {
            commands.push(PointerCommand::SetHover(None));
            match ctx.cursor_point {
                Some(point) => {
                    if self.drag_anchor != Some(point) {
                        self.drag_moved = true;
                    }
                    commands.push(PointerCommand::UpdateSelection(point));
                },
                None => {},
            }
            return commands;
        }

        let keeps_pending = match (&self.pending_click, &ctx.hovered) {
            (Some(pending), Some(hovered)) => should_open_pending_hyperlink(pending, Some(hovered), false, false),
            _ => false,
        };
        if !keeps_pending {
            self.pending_click = None;
        }
        commands.push(PointerCommand::SetHover(ctx.hovered));
        if keeps_pending {
            return commands;
        }
        let event = match self.pressed_button {
            Some(_) => PointerCommand::WriteMouseEvent(MouseEventKind::Drag, self.pressed_button),
            None => PointerCommand::WriteMouseEvent(MouseEventKind::Move, None),
        };
        commands.push(event);
        commands
    }
}

// ---------------------------------------------------------------------
// Laws.
// ---------------------------------------------------------------------

/// Ctrl-clicking a link (with opening enabled and nothing selected) and
/// releasing the left button on the same link opens that link; neither
/// event is reported to the application, and no button stays held.
pub proof fn lemma_ctrl_click_on_link_opens_it(
    s0: PointerState,
    press_ctx: PointerContext,
    s1: PointerState,
    press_commands: Seq<PointerCommand>,
    release_ctx: PointerContext,
    s2: PointerState,
    release_commands: Seq<PointerCommand>,
)
    requires
        press_post(s0, press_ctx, Some(MouseButton::Left), s1, press_commands),
        release_post(s1, release_ctx, Some(MouseButton::Left), s2, release_commands),
        press_holds_link(s0, press_ctx, Some(MouseButton::Left)),
        release_ctx.hovered matches Some(h) && same_hover(h, press_ctx.hovered->0),
        !release_ctx.has_selection,
    ensures
        press_commands.len() == 0,
        release_commands == seq![PointerCommand::OpenHyperlink(press_ctx.hovered->0.hyperlink)],
        s2.pressed_button is None,
        s2.pending_click is None,
{
    assert(release_commands =~= seq![PointerCommand::OpenHyperlink(press_ctx.hovered->0.hyperlink)]);
}

/// A single left click that selects (no mouse reporting, or Shift held)
/// and is released where it was pressed leaves no selection: the release
/// ends the selection with `clear` set.
pub proof fn lemma_simple_click_leaves_no_selection(
    s0: PointerState,
    press_ctx: PointerContext,
    s1: PointerState,
    press_commands: Seq<PointerCommand>,
    release_ctx: PointerContext,
    s2: PointerState,
    release_commands: Seq<PointerCommand>,
    point: SelectionPoint,
)
    requires
        press_post(s0, press_ctx, Some(MouseButton::Left), s1, press_commands),
        release_post(s1, release_ctx, Some(MouseButton::Left), s2, release_commands),
        !press_holds_link(s0, press_ctx, Some(MouseButton::Left)),
        press_selects(press_ctx, Some(MouseButton::Left)),
        press_ctx.cursor_point == Some(point),
        next_click_count(s0.click_tracker, point, press_ctx.now_nanos) == 1,
        release_ctx.cursor_point == Some(point),
    ensures
        release_commands == seq![
            PointerCommand::UpdateSelection(point),
            PointerCommand::EndSelection { clear: true },
            PointerCommand::RefreshHover,
        ],
        !s2.drag_active,
        s2.pressed_button is None,
{
    assert(release_commands =~= seq![
        PointerCommand::UpdateSelection(point),
        PointerCommand::EndSelection { clear: true },
        PointerCommand::RefreshHover,
    ]);
}

/// While the application reports the mouse and Shift is not held, a press
/// and release of a button without a link under the pointer are both
/// reported to the application, and the button is no longer held after.
pub proof fn lemma_reported_click_round_trip(
    s0: PointerState,
    press_ctx: PointerContext,
    s1: PointerState,
    press_commands: Seq<PointerCommand>,
    release_ctx: PointerContext,
    s2: PointerState,
    release_commands: Seq<PointerCommand>,
    button: MouseButton,
)
    requires
        press_post(s0, press_ctx, Some(button), s1, press_commands),
        release_post(s1, release_ctx, Some(button), s2, release_commands),
        press_ctx.mouse_reporting && !press_ctx.shift,
        press_ctx.hovered is None,
    ensures
        press_commands.last() == PointerCommand::WriteMouseEvent(MouseEventKind::Press, Some(button)),
        release_commands == seq![PointerCommand::WriteMouseEvent(MouseEventKind::Release, Some(button))],
        s2.pressed_button is None,
{
    assert(release_commands =~= seq![PointerCommand::WriteMouseEvent(MouseEventKind::Release, Some(button))]);
}

} // verus!
