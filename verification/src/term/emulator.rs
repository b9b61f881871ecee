//! The VT emulator behind the terminal: `alacritty_terminal` interprets the
//! shell's output and keeps the grid, the scrollback and the modes. Each
//! call into it has a wrapper here; the decisions around them are the
//! terminal's, in `term::terminal`.
//!
//! The emulator is opaque to the proofs. What the wrappers state of it goes
//! through four names of its shape (columns, screen lines, history lines,
//! display offset), read by the wrappers that return them.

use vstd::prelude::*;
use std::cell::RefCell;
use std::rc::Rc;
use alacritty_terminal::event::{Event, EventListener};
use alacritty_terminal::grid::{Dimensions, Scroll};
use alacritty_terminal::index::{Column, Line};
use alacritty_terminal::term::cell::{Cell as GridCell, Flags};
use alacritty_terminal::term::test::TermSize;
use alacritty_terminal::term::{Config, Term, TermDamage, TermMode};
use alacritty_terminal::vte::ansi::{Color as VteColor, Processor, Rgb};
use crate::term::grid::LineDamage;

verus! {

/// An event that the emulator reports to its listener.
#[verifier::external_type_specification]
#[verifier::external_body]
pub struct ExEmulatorEvent(alacritty_terminal::event::Event);

/// The listener the emulator reports to: replies for the PTY and title
/// changes are queued until the terminal takes them.
#[verifier::external_body]
pub struct EventSink {
    pty_writes: Rc<RefCell<Vec<String>>>,
    titles: Rc<RefCell<Vec<Option<String>>>>,
}

impl EventListener for EventSink {
    /// Queues a PTY reply (`Event::PtyWrite`), a new title (`Event::Title`)
    /// or a title reset (`Event::ResetTitle`); other events are not used.
    #[verifier::external_body]
    fn send_event(&self, event: Event) {
        match event {
            Event::PtyWrite(text) => self.pty_writes.borrow_mut().push(text),
            Event::Title(title) => self.titles.borrow_mut().push(Some(title)),
            Event::ResetTitle => self.titles.borrow_mut().push(None),
            _ => {},
        }
    }
}

/// The emulator state: `alacritty_terminal`'s `Term` and the escape
/// sequence parser that drives it, with the queues of its listener.
#[verifier::external_body]
pub struct Emulator {
    term: Term<EventSink>,
    processor: Processor,
    pty_writes: Rc<RefCell<Vec<String>>>,
    titles: Rc<RefCell<Vec<Option<String>>>>,
}

/// Columns of the emulator's grid.
pub uninterp spec fn emulator_columns(e: Emulator) -> usize;

/// Visible lines of the emulator's grid.
pub uninterp spec fn emulator_screen_lines(e: Emulator) -> usize;

/// Lines of scrollback above the screen.
pub uninterp spec fn emulator_history(e: Emulator) -> usize;

/// How many lines the view is scrolled back.
pub uninterp spec fn emulator_display_offset(e: Emulator) -> usize;

/// The cursor's column and grid line.
pub uninterp spec fn emulator_cursor(e: Emulator) -> (usize, i32);

/// `TermMode::ALT_SCREEN` is set.
pub uninterp spec fn emulator_alt_screen(e: Emulator) -> bool;

/// `TermMode::BRACKETED_PASTE` is set.
pub uninterp spec fn emulator_bracketed_paste(e: Emulator) -> bool;

/// `TermMode::SHOW_CURSOR` is set.
pub uninterp spec fn emulator_cursor_shown(e: Emulator) -> bool;

/// The cells of the displayed region, as `Grid::display_iter` yields them.
pub uninterp spec fn emulator_displayed_cells(e: Emulator) -> Seq<DisplayedCell>;

/// The cells of grid line `line`, column by column.
pub uninterp spec fn emulator_line_cells(e: Emulator, line: i32) -> Seq<RawCell>;

/// The PTY replies queued by the listener and not yet taken.
pub uninterp spec fn emulator_pty_writes(e: Emulator) -> Seq<String>;

/// The bytes handed to the escape sequence parser so far, in order.
pub uninterp spec fn emulator_input(e: Emulator) -> Seq<u8>;

/// Everything the names above say of `a` holds of `b`.
pub open spec fn same_state(a: Emulator, b: Emulator) -> bool {
    &&& emulator_columns(b) == emulator_columns(a)
    &&& emulator_screen_lines(b) == emulator_screen_lines(a)
    &&& emulator_history(b) == emulator_history(a)
    &&& emulator_display_offset(b) == emulator_display_offset(a)
    &&& emulator_cursor(b) == emulator_cursor(a)
    &&& emulator_alt_screen(b) == emulator_alt_screen(a)
    &&& emulator_bracketed_paste(b) == emulator_bracketed_paste(a)
    &&& emulator_cursor_shown(b) == emulator_cursor_shown(a)
    &&& emulator_displayed_cells(b) == emulator_displayed_cells(a)
    &&& forall|line: i32| #[trigger] emulator_line_cells(b, line) == emulator_line_cells(a, line)
    &&& emulator_pty_writes(b) == emulator_pty_writes(a)
    &&& emulator_input(b) == emulator_input(a)
}

/// How the view of the history is scrolled (`alacritty_terminal`'s `Scroll`).
#[derive(Clone, Copy, Debug, Eq, PartialEq, Structural)]
pub enum DisplayScroll {
    /// Up (positive) or down (negative) by a number of lines.
    Delta(i32),
    Top,
    Bottom,
}

/// The display offset after `scroll` from `offset` with `history` lines of
/// history: `min(max(offset + count, 0), history)` for a delta, the history
/// for `Top`, 0 for `Bottom`.
pub open spec fn scrolled_offset(offset: usize, history: usize, scroll: DisplayScroll) -> usize {
    match scroll {
        DisplayScroll::Delta(count) => {
            let moved: int = offset + count;
            let floor: int = if moved < 0 { 0 } else { moved };
            if floor < history { floor as usize } else { history }
        },
        DisplayScroll::Top => history,
        DisplayScroll::Bottom => 0,
    }
}

/// A color as the emulator stores it: true color, a palette index, or a
/// named color by its number (the 16 basic colors are 0 to 15; the
/// default foreground and background come after 255).
#[derive(Clone, Copy, Debug, Eq, PartialEq, Structural)]
pub enum RawColor {
    Spec(u8, u8, u8),
    Indexed(u8),
    Named(usize),
}

/// The cell attributes the terminal reads.
#[derive(Clone, Copy, Debug, Eq, PartialEq, Structural)]
pub struct RawCellFlags {
    pub bold: bool,
    pub italic: bool,
    /// Any kind of underline.
    pub underline: bool,
    pub inverse: bool,
    pub wide_char: bool,
    pub wide_char_spacer: bool,
    pub leading_wide_char_spacer: bool,
}

/// A grid cell as the emulator stores it.
#[derive(Clone, Debug, Eq, PartialEq)]
pub struct RawCell {
    pub ch: char,
    /// Zero-width characters drawn over the cell.
    pub zerowidth: Vec<char>,
    pub fg: RawColor,
    pub bg: RawColor,
    pub flags: RawCellFlags,
}

/// A cell of the displayed region, with its grid line and column and the
/// hyperlink it carries as `(id, uri)`.
#[derive(Clone, Debug, Eq, PartialEq)]
pub struct DisplayedCell {
    pub line: i32,
    pub column: usize,
    pub cell: RawCell,
    pub link: Option<(String, String)>,
}

/// A grid cell of the emulator.
#[verifier::external_type_specification]
#[verifier::external_body]
pub struct ExGridCell(GridCell);

/// A color of the escape sequence parser.
#[verifier::external_type_specification]
#[verifier::external_body]
pub struct ExVteColor(VteColor);

/// A color as plain values, one arm per variant.
#[verifier::external_body]
fn raw_color(color: VteColor) -> (r: RawColor) {
    match color {
        VteColor::Spec(Rgb { r, g, b }) => RawColor::Spec(r, g, b),
        VteColor::Indexed(index) => RawColor::Indexed(index),
        VteColor::Named(named) => RawColor::Named(named as usize),
    }
}

impl Emulator {
    /// `Term::new` with a grid of `cols` x `rows` cells and up to
    /// `scrollback` lines of history, its damage reset, and a new parser.
    #[verifier::external_body]
    /// The new grid has no history and is not scrolled back; the cursor is
    /// at the top left; the modes are the defaults (primary screen, no
    /// bracketed paste, cursor shown); no reply is queued.
    pub fn new(cols: usize, rows: usize, scrollback: usize) -> (e: Emulator)
        requires
            cols > 0,
            rows > 0,
        ensures
            emulator_columns(e) == cols,
            emulator_screen_lines(e) == rows,
            emulator_history(e) == 0,
            emulator_display_offset(e) == 0,
            emulator_cursor(e) == (0usize, 0i32),
            !emulator_alt_screen(e),
            !emulator_bracketed_paste(e),
            emulator_cursor_shown(e),
            emulator_pty_writes(e).len() == 0,
            emulator_input(e).len() == 0,
    {
        let pty_writes = Rc::new(RefCell::new(Vec::new()));
        let titles = Rc::new(RefCell::new(Vec::new()));
        let sink = EventSink { pty_writes: Rc::clone(&pty_writes), titles: Rc::clone(&titles) };
        let config = Config { scrolling_history: scrollback, ..Config::default() };
        let mut term = Term::new(config, &TermSize::new(cols, rows), sink);
        term.reset_damage();
        Emulator { term, processor: Processor::new(), pty_writes, titles }
    }

    /// `Processor::advance` on each of `bytes`, in order. The bytes join
    /// the parser's input; the grid keeps its size, which only `Term::resize`
    /// changes.
    #[verifier::external_body]
    pub fn advance(&mut self, bytes: &[u8])
        ensures
            emulator_input(*final(self)) == emulator_input(*old(self)) + bytes@,
            emulator_columns(*final(self)) == emulator_columns(*old(self)),
            emulator_screen_lines(*final(self)) == emulator_screen_lines(*old(self)),
    {
        for &byte in bytes {
            self.processor.advance(&mut self.term, byte);
        }
    }

    /// `Term::swap_alt`: switches between the primary and alternate screens
    /// (which have the same size), flipping `TermMode::ALT_SCREEN`.
    #[verifier::external_body]
    pub fn swap_alt(&mut self)
        ensures
            emulator_alt_screen(*final(self)) == !emulator_alt_screen(*old(self)),
            emulator_columns(*final(self)) == emulator_columns(*old(self)),
            emulator_screen_lines(*final(self)) == emulator_screen_lines(*old(self)),
            emulator_bracketed_paste(*final(self)) == emulator_bracketed_paste(*old(self)),
            emulator_pty_writes(*final(self)) == emulator_pty_writes(*old(self)),
            emulator_input(*final(self)) == emulator_input(*old(self)),
    {
        self.term.swap_alt();
    }

    /// `Term::resize` to `cols` x `rows` cells.
    #[verifier::external_body]
    pub fn resize(&mut self, cols: usize, rows: usize)
        requires
            cols > 0,
            rows > 0,
        ensures
            emulator_columns(*final(self)) == cols,
            emulator_screen_lines(*final(self)) == rows,
            emulator_display_offset(*final(self)) <= emulator_history(*final(self)),
            emulator_alt_screen(*final(self)) == emulator_alt_screen(*old(self)),
            emulator_bracketed_paste(*final(self)) == emulator_bracketed_paste(*old(self)),
            emulator_cursor_shown(*final(self)) == emulator_cursor_shown(*old(self)),
            emulator_pty_writes(*final(self)) == emulator_pty_writes(*old(self)),
            emulator_input(*final(self)) == emulator_input(*old(self)),
    {
        self.term.resize(TermSize::new(cols, rows));
    }

    /// `Term::reset_damage`: only the damage record changes.
    #[verifier::external_body]
    pub fn reset_damage(&mut self)
        ensures
            same_state(*old(self), *final(self)),
    {
        self.term.reset_damage();
    }

    /// `Term::damage`: `None` when the whole screen is damaged, else the
    /// damaged ranges of the lines that changed.
    /// Reading it changes only the damage record.
    #[verifier::external_body]
    pub fn damage(&mut self) -> (r: Option<Vec<LineDamage>>)
        ensures
            same_state(*old(self), *final(self)),
    {
        match self.term.damage() {
            TermDamage::Full => None,
            TermDamage::Partial(lines) => Some(
                lines.map(|line| LineDamage { line: line.line, left: line.left, right: line.right }).collect(),
            ),
        }
    }

    /// `Term::scroll_display`: `Grid::scroll_display` sets the display
    /// offset to `min(max(offset + count, 0), history)` for a delta, to the
    /// history for `Top`, and to 0 for `Bottom`. The delta is added to the
    /// offset as an `i32`, so both must stay in its range.
    #[verifier::external_body]
    pub fn scroll_display(&mut self, scroll: DisplayScroll)
        requires
            scroll matches DisplayScroll::Delta(count) ==> emulator_display_offset(*old(self)) <= i32::MAX
                && i32::MIN <= emulator_display_offset(*old(self)) + count <= i32::MAX,
        ensures
            emulator_display_offset(*final(self))
                == scrolled_offset(emulator_display_offset(*old(self)), emulator_history(*old(self)), scroll),
            emulator_history(*final(self)) == emulator_history(*old(self)),
            emulator_columns(*final(self)) == emulator_columns(*old(self)),
            emulator_screen_lines(*final(self)) == emulator_screen_lines(*old(self)),
            emulator_cursor(*final(self)) == emulator_cursor(*old(self)),
            emulator_alt_screen(*final(self)) == emulator_alt_screen(*old(self)),
            emulator_bracketed_paste(*final(self)) == emulator_bracketed_paste(*old(self)),
            emulator_cursor_shown(*final(self)) == emulator_cursor_shown(*old(self)),
            emulator_pty_writes(*final(self)) == emulator_pty_writes(*old(self)),
            emulator_input(*final(self)) == emulator_input(*old(self)),
    {
        let scroll = match scroll {
            DisplayScroll::Delta(lines) => Scroll::Delta(lines),
            DisplayScroll::Top => Scroll::Top,
            DisplayScroll::Bottom => Scroll::Bottom,
        };
        self.term.scroll_display(scroll);
    }

    /// The grid's columns and screen lines (`Dimensions::columns`,
    /// `Dimensions::screen_lines`). The grid holds that many cells in
    /// memory, so their product fits in `usize`.
    #[verifier::external_body]
    pub fn size(&self) -> (r: (usize, usize))
        ensures
            r.0 == emulator_columns(*self),
            r.1 == emulator_screen_lines(*self),
            r.0 * r.1 <= usize::MAX,
    {
        let grid = self.term.grid();
        (grid.columns(), grid.screen_lines())
    }

    /// `Grid::history_size`.
    #[verifier::external_body]
    pub fn history_size(&self) -> (r: usize)
        ensures
            r == emulator_history(*self),
    {
        self.term.grid().history_size()
    }

    /// `Grid::display_offset`.
    #[verifier::external_body]
    pub fn display_offset(&self) -> (r: usize)
        ensures
            r == emulator_display_offset(*self),
            r <= emulator_history(*self),
    {
        self.term.grid().display_offset()
    }

    /// The cursor's column and line.
    #[verifier::external_body]
    pub fn cursor_point(&self) -> (r: (usize, i32))
        ensures
            r == emulator_cursor(*self),
    {
        let point = self.term.grid().cursor.point;
        (point.column.0, point.line.0)
    }

    /// Whether `TermMode::ALT_SCREEN` is set.
    #[verifier::external_body]
    pub fn alt_screen_active(&self) -> (r: bool)
        ensures
            r == emulator_alt_screen(*self),
    {
        self.term.mode().contains(TermMode::ALT_SCREEN)
    }

    /// Whether `TermMode::BRACKETED_PASTE` is set.
    #[verifier::external_body]
    pub fn bracketed_paste(&self) -> (r: bool)
        ensures
            r == emulator_bracketed_paste(*self),
    {
        self.term.mode().contains(TermMode::BRACKETED_PASTE)
    }

    /// Whether `TermMode::SHOW_CURSOR` is set.
    #[verifier::external_body]
    pub fn cursor_shown(&self) -> (r: bool)
        ensures
            r == emulator_cursor_shown(*self),
    {
        self.term.mode().contains(TermMode::SHOW_CURSOR)
    }

    /// The cells of grid line `line` (negative lines are in the history),
    /// column by column.
    #[verifier::external_body]
    pub fn line_cells(&self, line: i32) -> (r: Vec<RawCell>)
        requires
            -(emulator_history(*self) as int) <= line < emulator_screen_lines(*self),
        ensures
            r@ == emulator_line_cells(*self, line),
    {
        let grid = self.term.grid();
        (0..grid.columns()).map(|col| raw_cell(&grid[Line(line)][Column(col)])).collect()
    }

    /// `Grid::display_iter`: the cells of the displayed region with their
    /// positions and hyperlinks.
    #[verifier::external_body]
    pub fn displayed_cells(&self) -> (r: Vec<DisplayedCell>)
        ensures
            r@ == emulator_displayed_cells(*self),
    {
        self.term
            .grid()
            .display_iter()
            .map(|indexed| DisplayedCell {
                line: indexed.point.line.0,
                column: indexed.point.column.0,
                cell: raw_cell(indexed.cell),
                link: indexed.cell.hyperlink().map(|link| (link.id().to_owned(), link.uri().to_owned())),
            })
            .collect()
    }

    /// The PTY replies queued since the last call (`Event::PtyWrite`).
    #[verifier::external_body]
    pub fn take_pty_writes(&mut self) -> (r: Vec<String>)
        ensures
            r@ == emulator_pty_writes(*old(self)),
            emulator_pty_writes(*final(self)).len() == 0,
            emulator_columns(*final(self)) == emulator_columns(*old(self)),
            emulator_screen_lines(*final(self)) == emulator_screen_lines(*old(self)),
            emulator_history(*final(self)) == emulator_history(*old(self)),
            emulator_display_offset(*final(self)) == emulator_display_offset(*old(self)),
            emulator_cursor(*final(self)) == emulator_cursor(*old(self)),
            emulator_alt_screen(*final(self)) == emulator_alt_screen(*old(self)),
            emulator_bracketed_paste(*final(self)) == emulator_bracketed_paste(*old(self)),
            emulator_cursor_shown(*final(self)) == emulator_cursor_shown(*old(self)),
            emulator_displayed_cells(*final(self)) == emulator_displayed_cells(*old(self)),
            emulator_input(*final(self)) == emulator_input(*old(self)),
    {
        std::mem::take(&mut *self.pty_writes.borrow_mut())
    }

    /// The title changes queued since the last call, oldest first
    /// (`Event::Title` as `Some`, `Event::ResetTitle` as `None`).
    #[verifier::external_body]
    pub fn take_titles(&mut self) -> (r: Vec<Option<String>>)
        ensures
            same_state(*old(self), *final(self)),
    {
        std::mem::take(&mut *self.titles.borrow_mut())
    }
}

/// A grid cell as plain values.
#[verifier::external_body]
fn raw_cell(cell: &GridCell) -> (r: RawCell) {
    RawCell {
        ch: cell.c,
        zerowidth: cell.zerowidth().map(<[char]>::to_vec).unwrap_or_default(),
        fg: raw_color(cell.fg),
        bg: raw_color(cell.bg),
        flags: RawCellFlags {
            bold: cell.flags.contains(Flags::BOLD),
            italic: cell.flags.contains(Flags::ITALIC),
            underline: cell.flags.intersects(Flags::ALL_UNDERLINES),
            inverse: cell.flags.contains(Flags::INVERSE),
            wide_char: cell.flags.contains(Flags::WIDE_CHAR),
            wide_char_spacer: cell.flags.contains(Flags::WIDE_CHAR_SPACER),
            leading_wide_char_spacer: cell.flags.contains(Flags::LEADING_WIDE_CHAR_SPACER),
        },
    }
}

} // verus!
