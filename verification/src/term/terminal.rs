//! The terminal the application draws: PTY output goes through the
//! sequences handled ahead of the emulator, then into the emulator; around
//! it the terminal keeps the unfinished sequence for the next chunk, the
//! mouse and focus modes, the selection, the image placements as output
//! scrolls, the window title and the damage still to draw.

use vstd::prelude::*;
use crate::term::compat::{
    contains_full_reset, plan_compat_input, spec_contains_full_reset, spec_plan_from, lemma_plan_covers_consumed_prefix,
    steps_view, CompatAction, CompatStep, CompatStepView,
};
use crate::term::emulator::{
    emulator_alt_screen, emulator_bracketed_paste, emulator_columns, emulator_cursor, emulator_cursor_shown,
    emulator_display_offset, emulator_displayed_cells, emulator_history, emulator_input, emulator_line_cells, emulator_pty_writes,
    emulator_screen_lines, scrolled_offset, DisplayScroll, DisplayedCell, Emulator, RawCell, RawColor,
};
use crate::term::grid::{
    merge_damage, spec_merge_damage, Cell, CellFlags, Color, Damage, DamageView, GridPoint,
    GridSnapshot, Hyperlink, ImageId, ImagePlacement, ImagePlacementId, LineDamage, SelectionMode, SelectionPoint,
    SelectionRange, SelectionRect, SelectionState,
};
use crate::term::mouse::{
    encode_focus_event, encode_mouse_event, paste_bytes, spec_encode_focus_event, spec_encode_mouse_event,
    bracketed_paste_start, bracketed_paste_end, MouseEncoding, MouseModeState, MouseModes, TerminalMouseEvent,
};
use crate::term::placements::{
    bottoms_fit, history_shift, kitty_cursor_move_sequence, spec_after_output_scroll, spec_kitty_cursor_move, spec_upsert, keeps_image,
    keeps_placement, ImagePlacements,
};
use crate::term::sanitize::{
    hyperlink_from_parts, limited_text, sanitize_window_title, spec_is_generated_hyperlink_id, spec_sanitize_hyperlink_id,
    spec_sanitize_window_title, MAX_HYPERLINK_ID_BYTES, MAX_HYPERLINK_URI_BYTES,
};
use vstd::utf8::encode_utf8;
use crate::term::selection::{
    begin_selection, clamp_selection_point, effective_selection_range, end_selection, line_selected_text,
    selection_contains_point, selection_point_for_visible_cell, selection_rects, selection_text,
    spec_clamp_point, spec_point_for_visible_cell, update_selection, SelectionGeometry, TextCell,
    cells_text, joined_lines, spec_effective_range, spec_line_selected_text, spec_range_contains, spec_selection_rects,
};
use crate::text::trim_end;
use crate::term::viewport::{
    intern_hyperlink, link_view, links_distinct, viewport_index, spec_snapshot_cursor, place_visible_cell, snapshot_cursor, spec_visible_placements,
    viewport_rows_fit, visible_placements,
};

verus! {

/// Scrollback lines kept by `Terminal::new`.
pub const DEFAULT_SCROLLBACK_LINES: usize = 10_000;

/// GUI-independent terminal state.
pub struct Terminal {
    emulator: Emulator,
    damage: Damage,
    window_title: String,
    pending_window_title: Option<String>,
    pending_compat_input: Vec<u8>,
    mouse_state: MouseModeState,
    selection: Option<SelectionState>,
    image_placements: ImagePlacements,
}

/// The modes before the application asks for any: no mouse or focus
/// reports, default encoding.
pub open spec fn initial_mouse_state() -> MouseModeState {
    MouseModeState {
        x10: false,
        normal: false,
        button_motion: false,
        any_motion: false,
        encoding: MouseEncoding::Default,
        focus_events: false,
    }
}

/// The shape of the history that selection works over, as the emulator
/// reports it.
pub open spec fn spec_geometry(e: Emulator) -> SelectionGeometry {
    SelectionGeometry {
        cols: emulator_columns(e),
        rows: emulator_screen_lines(e),
        history: emulator_history(e),
        display_offset: emulator_display_offset(e),
    }
}

/// Damage is never lost: damage to the whole screen stays so, and damage
/// still to draw does not turn into none.
pub open spec fn damage_kept(before: DamageView, after: DamageView) -> bool {
    &&& before == DamageView::Full ==> after == DamageView::Full
    &&& before != DamageView::Clean ==> after != DamageView::Clean
}

/// `after` is `before` with a report of the emulator's damage merged in.
pub open spec fn merged_with_report(before: DamageView, after: DamageView) -> bool {
    exists|reported: Option<Seq<LineDamage>>| after == spec_merge_damage(before, #[trigger] spec_reported_damage(reported))
}

/// The title is unchanged, or it was set from what the application sent
/// (without control characters, at most 1024 characters) and is reported
/// as changed.
pub open spec fn title_followed(
    before: Seq<char>,
    before_pending: Option<Seq<char>>,
    after: Seq<char>,
    after_pending: Option<Seq<char>>,
) -> bool {
    ||| after == before && after_pending == before_pending
    ||| after_pending == Some(after) && exists|sent: Seq<char>| after == spec_sanitize_window_title(sent)
}

/// The mouse and focus modes after the private-mode steps of a plan.
pub open spec fn modes_after_steps(m: MouseModeState, steps: Seq<CompatStepView>) -> MouseModeState
    decreases steps.len(),
{
    if steps.len() == 0 {
        m
    } else {
        let before = modes_after_steps(m, steps.drop_last());
        match steps.last() {
            CompatStepView::Action(crate::term::compat::CompatActionView::PrivateModes { modes, enabled }) =>
                modes_after_list(before, modes, enabled),
            _ => before,
        }
    }
}

/// The mouse and focus modes after each of `modes` is set or reset.
pub open spec fn modes_after_list(
    m: MouseModeState,
    modes: Seq<crate::term::mouse::CompatPrivateMode>,
    enabled: bool,
) -> MouseModeState
    decreases modes.len(),
{
    if modes.len() == 0 {
        m
    } else {
        modes_after_list(m, modes.drop_last(), enabled).spec_apply(modes.last(), enabled)
    }
}

/// `after` is `before` moved up by some number of new history lines, less
/// the placements that left the history.
pub open spec fn follows_output_scroll(before: Seq<ImagePlacement>, after: Seq<ImagePlacement>) -> bool {
    exists|shift: int, history: usize| shift >= 0 && #[trigger] spec_after_output_scroll(before, shift, history) == after
}

/// The emulator's grid has the same size in `a` and `b`.
pub open spec fn keeps_size(a: Emulator, b: Emulator) -> bool {
    emulator_columns(b) == emulator_columns(a) && emulator_screen_lines(b) == emulator_screen_lines(a)
}

/// `n` carriage-return line-feed pairs.
pub open spec fn line_breaks(n: nat) -> Seq<u8> {
    Seq::new(2 * n, |i: int| if i % 2 == 0 { 0x0du8 } else { 0x0au8 })
}

/// The bytes one step of a plan hands to the emulator: a range of the
/// input, or the cursor save or restore sequence.
pub open spec fn step_bytes(input: Seq<u8>, step: CompatStepView) -> Seq<u8> {
    match step {
        CompatStepView::Vte(a, b) => input.subrange(a, b),
        CompatStepView::Action(crate::term::compat::CompatActionView::SaveCursor) => seq![0x1bu8, 0x37u8],
        CompatStepView::Action(crate::term::compat::CompatActionView::RestoreCursor) => seq![0x1bu8, 0x38u8],
        CompatStepView::Action(_) => Seq::empty(),
    }
}

/// The bytes a plan hands to the emulator, step by step.
pub open spec fn forwarded_by_steps(input: Seq<u8>, steps: Seq<CompatStepView>) -> Seq<u8>
    decreases steps.len(),
{
    if steps.len() == 0 {
        Seq::empty()
    } else {
        forwarded_by_steps(input, steps.drop_last()) + step_bytes(input, steps.last())
    }
}

/// The emulator cells of logical row `row`, or none when it is not on the
/// grid (or not an `i32` line).
pub open spec fn spec_row_cells(e: Emulator, row: isize) -> Seq<RawCell> {
    if i32::MIN <= row <= i32::MAX && -(emulator_history(e) as int) <= row < emulator_screen_lines(e) {
        emulator_line_cells(e, row as i32)
    } else {
        Seq::empty()
    }
}

/// The characters of the row `point` clamps to.
pub open spec fn spec_line_chars(e: Emulator, point: SelectionPoint) -> Seq<char> {
    match spec_clamp_point(spec_geometry(e), point) {
        Some(p) => spec_row_cells(e, p.row).map_values(|c: RawCell| c.ch),
        None => Seq::empty(),
    }
}

/// The range a selection covers on the emulator's grid.
pub open spec fn spec_selection_range(e: Emulator, selection: Option<SelectionState>) -> Option<SelectionRange> {
    match selection {
        Some(s) => spec_effective_range(spec_geometry(e), selection, spec_line_chars(e, s.anchor), spec_line_chars(e, s.focus)),
        None => None,
    }
}

/// The last column of the grid (0 for a grid without columns).
pub open spec fn spec_last_col(e: Emulator) -> usize {
    if emulator_columns(e) > 0 { (emulator_columns(e) - 1) as usize } else { 0 }
}

/// A text cell holds what an emulator cell holds.
pub open spec fn cell_matches(t: TextCell, c: RawCell) -> bool {
    &&& t.ch == c.ch
    &&& t.zerowidth@ == c.zerowidth@
    &&& t.wide_spacer == (c.flags.wide_char_spacer || c.flags.leading_wide_char_spacer)
}

pub open spec fn text_cells_match(t: Seq<TextCell>, c: Seq<RawCell>) -> bool {
    &&& t.len() == c.len()
    &&& forall|i: int| 0 <= i < t.len() ==> cell_matches(#[trigger] t[i], c[i])
}

/// The characters an emulator cell contributes to copied text.
pub open spec fn raw_cell_text(c: RawCell) -> Seq<char> {
    if c.flags.wide_char_spacer || c.flags.leading_wide_char_spacer { Seq::empty() } else { seq![c.ch] + c.zerowidth@ }
}

/// The text of cells `from..to` of `line`.
pub open spec fn raw_cells_text(line: Seq<RawCell>, from: int, to: int) -> Seq<char>
    decreases to - from,
{
    if to <= from {
        Seq::empty()
    } else {
        raw_cells_text(line, from, to - 1) + raw_cell_text(line[to - 1])
    }
}

/// The text copied from columns `start_col..=end_col` of an emulator row.
pub open spec fn spec_raw_line_text(line: Seq<RawCell>, start_col: usize, end_col: usize) -> Seq<char> {
    let cols = line.len();
    if cols == 0 || start_col >= cols {
        Seq::empty()
    } else {
        let end = if end_col < cols - 1 { end_col as int } else { cols - 1 };
        if end < start_col {
            Seq::empty()
        } else {
            let c = line[start_col as int];
            let start = if start_col > 0 && (c.flags.wide_char_spacer || c.flags.leading_wide_char_spacer) {
                start_col - 1
            } else {
                start_col as int
            };
            trim_end(raw_cells_text(line, start, end + 1))
        }
    }
}

/// The text of each row of `range`, first to last.
pub open spec fn spec_selected_lines(e: Emulator, range: SelectionRange) -> Seq<Seq<char>> {
    Seq::new((range.end.row - range.start.row + 1) as nat, |i: int| {
        let row = range.start.row + i;
        spec_raw_line_text(
            spec_row_cells(e, row as isize),
            if row == range.start.row { range.start.col } else { 0 },
            if row == range.end.row { range.end.col } else { spec_last_col(e) },
        )
    })
}

/// The copied text of a selection.
pub open spec fn spec_selected_text(e: Emulator, selection: Option<SelectionState>) -> Option<Seq<char>> {
    match spec_selection_range(e, selection) {
        None => None,
        Some(r) => if r.end.row < r.start.row {
            None
        } else {
            let text = joined_lines(spec_selected_lines(e, r));
            if text.len() == 0 { None } else { Some(text) }
        },
    }
}

proof fn lemma_matching_cells_text(t: Seq<TextCell>, c: Seq<RawCell>, from: int, to: int)
    requires
        text_cells_match(t, c),
        0 <= from,
        to <= t.len(),
    ensures
        cells_text(t, from, to) == raw_cells_text(c, from, to),
    decreases to - from,
{
    if to > from {
        lemma_matching_cells_text(t, c, from, to - 1);
        assert(cell_matches(t[to - 1], c[to - 1]));
    }
}

proof fn lemma_matching_cells_same_text(t: Seq<TextCell>, c: Seq<RawCell>, start_col: usize, end_col: usize)
    requires
        text_cells_match(t, c),
    ensures
        spec_line_selected_text(t, start_col, end_col) == spec_raw_line_text(c, start_col, end_col),
{
    let cols = t.len();
    if cols > 0 && start_col < cols {
        let end = if end_col < cols - 1 { end_col as int } else { cols - 1 };
        if end >= start_col {
            assert(cell_matches(t[start_col as int], c[start_col as int]));
            let start = if start_col > 0 && t[start_col as int].wide_spacer { start_col - 1 } else { start_col as int };
            lemma_matching_cells_text(t, c, start, end + 1);
        }
    }
}

/// A blank cell: a space in the default colors, without attributes.
pub open spec fn blank_cell() -> Cell {
    Cell {
        ch: ' ',
        fg: Color::DefaultFg,
        bg: Color::DefaultBg,
        flags: CellFlags { bold: false, italic: false, underline: false, inverse: false, wide: false, wide_spacer: false },
        hyperlink: None,
    }
}

/// `c` without its hyperlink index.
pub open spec fn without_link(c: Cell) -> Cell {
    Cell { hyperlink: None, ..c }
}

/// The hyperlink id to keep, from its characters: none for ids the
/// emulator made up or that clean up to nothing.
pub open spec fn spec_id_view(id: Seq<char>) -> Option<Seq<char>> {
    if spec_is_generated_hyperlink_id(encode_utf8(id)) {
        None
    } else {
        let clean = limited_text(id, 0, MAX_HYPERLINK_ID_BYTES as nat);
        if clean.len() == 0 { None } else { Some(clean) }
    }
}

/// The link a displayed cell shows, as text: its kept id and cleaned
/// target; none without a link or with a target that cleans up to nothing.
pub open spec fn displayed_link(d: DisplayedCell) -> Option<(Option<Seq<char>>, Seq<char>)> {
    match d.link {
        None => None,
        Some(parts) => {
            let clean = limited_text(parts.1@, 0, MAX_HYPERLINK_URI_BYTES as nat);
            if clean.len() == 0 { None } else { Some((spec_id_view(parts.0@), clean)) }
        },
    }
}

/// The snapshot cells, without hyperlinks, after placing `ds` in order on
/// a blank viewport of `cols` x `rows` cells scrolled back by `offset`.
pub open spec fn placed_cells(ds: Seq<DisplayedCell>, cols: usize, rows: usize, offset: usize) -> Seq<Cell>
    decreases ds.len(),
{
    if ds.len() == 0 {
        Seq::new((cols * rows) as nat, |i: int| blank_cell())
    } else {
        let prev = placed_cells(ds.drop_last(), cols, rows, offset);
        match viewport_index(cols, rows, offset, ds.last().line, ds.last().column) {
            Some(k) => prev.update(k, spec_cell_from_raw(ds.last().cell)),
            None => prev,
        }
    }
}

/// The link shown at each viewport position after placing `ds` in order.
pub open spec fn placed_links(ds: Seq<DisplayedCell>, cols: usize, rows: usize, offset: usize)
    -> Seq<Option<(Option<Seq<char>>, Seq<char>)>>
    decreases ds.len(),
{
    if ds.len() == 0 {
        Seq::new((cols * rows) as nat, |i: int| None)
    } else {
        let prev = placed_links(ds.drop_last(), cols, rows, offset);
        match viewport_index(cols, rows, offset, ds.last().line, ds.last().column) {
            Some(k) => prev.update(k, displayed_link(ds.last())),
            None => prev,
        }
    }
}

proof fn lemma_placed_lengths(ds: Seq<DisplayedCell>, cols: usize, rows: usize, offset: usize)
    ensures
        placed_cells(ds, cols, rows, offset).len() == cols * rows,
        placed_links(ds, cols, rows, offset).len() == cols * rows,
    decreases ds.len(),
{
    if ds.len() > 0 {
        lemma_placed_lengths(ds.drop_last(), cols, rows, offset);
        if let Some(k) = viewport_index(cols, rows, offset, ds.last().line, ds.last().column) {
            let y = ds.last().line + offset;
            assert(0 <= y * cols + ds.last().column < cols * rows) by (nonlinear_arith)
                requires
                    0 <= y < rows,
                    ds.last().column < cols,
            ;
        }
    }
}

/// The cell refers to the link `v` in `links`, or to none when `v` is none.
pub open spec fn link_shown(links: Seq<Hyperlink>, c: Cell, v: Option<(Option<Seq<char>>, Seq<char>)>) -> bool {
    match v {
        None => c.hyperlink is None,
        Some(view) => c.hyperlink matches Some(k) && k < links.len() && link_view(links[k as int]) == view,
    }
}

/// A copy of a hyperlink.
pub fn copy_link(h: &Hyperlink) -> (r: Hyperlink)
    ensures
        link_view(r) == link_view(*h),
{
    let id = match &h.id {
        Some(id) => Some(id.clone()),
        None => None,
    };
    Hyperlink { id, uri: h.uri.clone() }
}

/// The color of a cell as the snapshot reports it: true colors and palette
/// entries as they are, the 16 basic named colors as palette entries, and
/// every other named color as the default foreground or background.
pub open spec fn spec_color_from_raw(raw: RawColor, foreground: bool) -> Color {
    match raw {
        RawColor::Spec(r, g, b) => Color::Rgb(r, g, b),
        RawColor::Indexed(i) => Color::Indexed(i),
        RawColor::Named(n) => if n <= 255 {
            Color::Indexed(n as u8)
        } else if foreground {
            Color::DefaultFg
        } else {
            Color::DefaultBg
        },
    }
}

pub fn color_from_raw(raw: RawColor, foreground: bool) -> (c: Color)
    ensures
        c == spec_color_from_raw(raw, foreground),
{
    match raw {
        RawColor::Spec(r, g, b) => Color::Rgb(r, g, b),
        RawColor::Indexed(i) => Color::Indexed(i),
        RawColor::Named(n) => if n <= 255 {
            Color::Indexed(n as u8)
        } else if foreground {
            Color::DefaultFg
        } else {
            Color::DefaultBg
        },
    }
}

/// A snapshot cell for an emulator cell, without a hyperlink.
pub open spec fn spec_cell_from_raw(raw: RawCell) -> Cell {
    Cell {
        ch: raw.ch,
        fg: spec_color_from_raw(raw.fg, true),
        bg: spec_color_from_raw(raw.bg, false),
        flags: CellFlags {
            bold: raw.flags.bold,
            italic: raw.flags.italic,
            underline: raw.flags.underline,
            inverse: raw.flags.inverse,
            wide: raw.flags.wide_char,
            wide_spacer: raw.flags.wide_char_spacer || raw.flags.leading_wide_char_spacer,
        },
        hyperlink: None,
    }
}

pub fn cell_from_raw(raw: &RawCell) -> (c: Cell)
    ensures
        c == spec_cell_from_raw(*raw),
{
    Cell {
        ch: raw.ch,
        fg: color_from_raw(raw.fg, true),
        bg: color_from_raw(raw.bg, false),
        flags: CellFlags {
            bold: raw.flags.bold,
            italic: raw.flags.italic,
            underline: raw.flags.underline,
            inverse: raw.flags.inverse,
            wide: raw.flags.wide_char,
            wide_spacer: raw.flags.wide_char_spacer || raw.flags.leading_wide_char_spacer,
        },
        hyperlink: None,
    }
}

/// An emulator cell as selection copies it.
pub fn text_cell_from_raw(raw: &RawCell) -> (c: TextCell)
    ensures
        c.ch == raw.ch,
        c.zerowidth@ == raw.zerowidth@,
        c.wide_spacer == (raw.flags.wide_char_spacer || raw.flags.leading_wide_char_spacer),
{
    let mut zerowidth: Vec<char> = Vec::new();
    let mut i: usize = 0;
    while i < raw.zerowidth.len()
        invariant
            i <= raw.zerowidth@.len(),
            zerowidth@ == raw.zerowidth@.take(i as int),
        decreases raw.zerowidth@.len() - i,
    {
        zerowidth.push(raw.zerowidth[i]);
        assert(zerowidth@ =~= raw.zerowidth@.take(i + 1));
        i += 1;
    }
    assert(zerowidth@ =~= raw.zerowidth@);
    TextCell { ch: raw.ch, zerowidth, wide_spacer: raw.flags.wide_char_spacer || raw.flags.leading_wide_char_spacer }
}

/// The emulator's report of the damage since it was last reset: all of
/// the screen, nothing, or the damaged line ranges.
pub open spec fn spec_reported_damage(lines: Option<Seq<LineDamage>>) -> DamageView {
    match lines {
        None => DamageView::Full,
        Some(l) => if l.len() == 0 { DamageView::Clean } else { DamageView::Lines(l) },
    }
}

pub fn reported_damage(lines: Option<Vec<LineDamage>>) -> (d: Damage)
    ensures
        d@ == spec_reported_damage(match lines {
            Some(l) => Some(l@),
            None => None,
        }),
{
    match lines {
        None => Damage::Full,
        Some(l) => if l.len() == 0 { Damage::Clean } else { Damage::Lines(l) },
    }
}

proof fn lemma_after_output_scroll_fits(s: Seq<ImagePlacement>, shift: int, history: usize)
    requires
        bottoms_fit(s),
        shift >= 0,
    ensures
        bottoms_fit(spec_after_output_scroll(s, shift, history)),
        s.len() == 0 ==> spec_after_output_scroll(s, shift, history).len() == 0,
    decreases s.len(),
{
    if s.len() > 0 {
        assert(bottoms_fit(s.drop_last())) by {
            assert forall|i: int| 0 <= i < s.drop_last().len() implies #[trigger] s.drop_last()[i].anchor.row + s.drop_last()[i].rows <= isize::MAX by {
                assert(s.drop_last()[i] == s[i]);
            }
        }
        lemma_after_output_scroll_fits(s.drop_last(), shift, history);
        assert(s[s.len() - 1].anchor.row + s[s.len() - 1].rows <= isize::MAX);
    }
}

impl Terminal {
    /// The bytes of an unfinished control sequence kept for the next chunk.
    pub closed spec fn pending_input(self) -> Seq<u8> {
        self.pending_compat_input@
    }

    pub closed spec fn selection_state(self) -> Option<SelectionState> {
        self.selection
    }

    pub closed spec fn placements(self) -> Seq<ImagePlacement> {
        self.image_placements@
    }

    /// The damage still to draw.
    pub closed spec fn damage_view(self) -> DamageView {
        self.damage@
    }

    pub closed spec fn title(self) -> Seq<char> {
        self.window_title@
    }

    /// A title change not yet reported.
    pub closed spec fn pending_title(self) -> Option<Seq<char>> {
        match self.pending_window_title {
            Some(t) => Some(t@),
            None => None,
        }
    }

    pub closed spec fn mouse(self) -> MouseModeState {
        self.mouse_state
    }

    /// The emulator inside.
    pub closed spec fn emu(self) -> Emulator {
        self.emulator
    }

    /// Every byte handed to the emulator so far, in order.
    pub closed spec fn forwarded_bytes(self) -> Seq<u8> {
        emulator_input(self.emulator)
    }

    /// Every placement's bottom row fits an `isize`, the damage is kept by
    /// lines, never as rectangles, and a title change not yet reported is
    /// the current title.
    pub closed spec fn wf(self) -> bool {
        &&& bottoms_fit(self.image_placements@)
        &&& !(self.damage@ is Rects)
        &&& self.pending_window_title matches Some(t) ==> t@ == self.window_title@
    }

    /// A terminal of `cols` x `rows` cells (at least one each) keeping
    /// `DEFAULT_SCROLLBACK_LINES` lines of history.
    pub fn new(cols: usize, rows: usize) -> (t: Self)
        ensures
            t.wf(),
            t.pending_input().len() == 0,
            t.selection_state() is None,
            t.placements().len() == 0,
            t.damage_view() == DamageView::Full,
            t.title().len() == 0,
            t.pending_title() is None,
            t.mouse() == initial_mouse_state(),
            emulator_columns(t.emu()) == if cols < 1 { 1 } else { cols },
            emulator_screen_lines(t.emu()) == if rows < 1 { 1 } else { rows },
            emulator_history(t.emu()) == 0,
            emulator_display_offset(t.emu()) == 0,
            emulator_cursor(t.emu()) == (0usize, 0i32),
            !emulator_alt_screen(t.emu()),
            !emulator_bracketed_paste(t.emu()),
            emulator_cursor_shown(t.emu()),
            emulator_pty_writes(t.emu()).len() == 0,
            t.forwarded_bytes().len() == 0,
    {
        Self::with_scrollback(cols, rows, DEFAULT_SCROLLBACK_LINES)
    }

    /// A terminal of `cols` x `rows` cells (at least one each) keeping up
    /// to `scrollback_lines` lines of history.
    pub fn with_scrollback(cols: usize, rows: usize, scrollback_lines: usize) -> (t: Self)
        ensures
            t.wf(),
            t.pending_input().len() == 0,
            t.selection_state() is None,
            t.placements().len() == 0,
            t.damage_view() == DamageView::Full,
            t.title().len() == 0,
            t.pending_title() is None,
            t.mouse() == initial_mouse_state(),
            emulator_columns(t.emu()) == if cols < 1 { 1 } else { cols },
            emulator_screen_lines(t.emu()) == if rows < 1 { 1 } else { rows },
            emulator_history(t.emu()) == 0,
            emulator_display_offset(t.emu()) == 0,
            emulator_cursor(t.emu()) == (0usize, 0i32),
            !emulator_alt_screen(t.emu()),
            !emulator_bracketed_paste(t.emu()),
            emulator_cursor_shown(t.emu()),
            emulator_pty_writes(t.emu()).len() == 0,
            t.forwarded_bytes().len() == 0,
    {
        let cols = if cols < 1 { 1 } else { cols };
        let rows = if rows < 1 { 1 } else { rows };
        let emulator = Emulator::new(cols, rows, scrollback_lines);
        Terminal {
            emulator,
            damage: Damage::Full,
            window_title: String::new(),
            pending_window_title: None,
            pending_compat_input: Vec::new(),
            mouse_state: MouseModeState::default(),
            selection: None,
            image_placements: ImagePlacements::new(),
        }
    }

    fn merge_into_damage(&mut self, next: Damage)
        requires
            old(self).wf(),
            !(next@ is Rects),
        ensures
            final(self).wf(),
            final(self).damage_view() == spec_merge_damage(old(self).damage_view(), next@),
            final(self).emu() == old(self).emu(),
            final(self).pending_input() == old(self).pending_input(),
            final(self).selection_state() == old(self).selection_state(),
            final(self).placements() == old(self).placements(),
            final(self).title() == old(self).title(),
            final(self).pending_title() == old(self).pending_title(),
            final(self).mouse() == old(self).mouse(),
            final(self).forwarded_bytes() == old(self).forwarded_bytes(),
            keeps_size(old(self).emu(), final(self).emu()),
    {
        let mut current = Damage::Clean;
        std::mem::swap(&mut self.damage, &mut current);
        self.damage = merge_damage(current, next);
    }

    fn mark_full_damage(&mut self)
        requires
            old(self).wf(),
        ensures
            final(self).wf(),
            final(self).damage_view() == DamageView::Full,
            final(self).emu() == old(self).emu(),
            final(self).pending_input() == old(self).pending_input(),
            final(self).selection_state() == old(self).selection_state(),
            final(self).placements() == old(self).placements(),
            final(self).title() == old(self).title(),
            final(self).pending_title() == old(self).pending_title(),
            final(self).mouse() == old(self).mouse(),
            final(self).forwarded_bytes() == old(self).forwarded_bytes(),
            keeps_size(old(self).emu(), final(self).emu()),
    {
        self.damage = Damage::Full;
    }

    /// Resizes the grid to `cols` x `rows` cells (at least one each): the
    /// selection is cleared and the whole screen is to be drawn again.
    pub fn resize(&mut self, cols: usize, rows: usize)
        requires
            old(self).wf(),
        ensures
            final(self).wf(),
            final(self).selection_state() is None,
            final(self).damage_view() == DamageView::Full,
            final(self).pending_input() == old(self).pending_input(),
            final(self).placements() == old(self).placements(),
            final(self).title() == old(self).title(),
            final(self).pending_title() == old(self).pending_title(),
            final(self).mouse() == old(self).mouse(),
            final(self).forwarded_bytes() == old(self).forwarded_bytes(),
            emulator_columns(final(self).emu()) == if cols < 1 { 1 } else { cols },
            emulator_screen_lines(final(self).emu()) == if rows < 1 { 1 } else { rows },
            emulator_alt_screen(final(self).emu()) == emulator_alt_screen(old(self).emu()),
            emulator_bracketed_paste(final(self).emu()) == emulator_bracketed_paste(old(self).emu()),
    {
        self.selection = None;
        let cols = if cols < 1 { 1 } else { cols };
        let rows = if rows < 1 { 1 } else { rows };
        self.emulator.resize(cols, rows);
        self.damage = Damage::Full;
        self.emulator.reset_damage();
    }

    /// Where a new image is anchored: the cursor.
    pub fn image_anchor(&self) -> (p: GridPoint)
        ensures
            p.col == emulator_cursor(self.emu()).0,
            p.row == emulator_cursor(self.emu()).1,
    {
        let (column, line) = self.emulator.cursor_point();
        GridPoint { col: column, row: line as isize }
    }

    /// Adds a placement after the others; the screen is drawn again.
    pub fn add_image_placement(&mut self, placement: ImagePlacement)
        requires
            old(self).wf(),
            placement.anchor.row + placement.rows <= isize::MAX,
        ensures
            final(self).wf(),
            final(self).placements() == old(self).placements().push(placement),
            final(self).damage_view() == DamageView::Full,
            final(self).selection_state() == old(self).selection_state(),
            final(self).pending_input() == old(self).pending_input(),
            final(self).forwarded_bytes() == old(self).forwarded_bytes(),
            keeps_size(old(self).emu(), final(self).emu()),
    {
        self.image_placements.add(placement);
        self.mark_full_damage();
    }

    /// Replaces the placement with the same id, or adds it; the screen is
    /// drawn again.
    pub fn upsert_image_placement(&mut self, placement: ImagePlacement)
        requires
            old(self).wf(),
            placement.anchor.row + placement.rows <= isize::MAX,
        ensures
            final(self).wf(),
            final(self).placements() == spec_upsert(old(self).placements(), placement),
            final(self).damage_view() == DamageView::Full,
            final(self).selection_state() == old(self).selection_state(),
            final(self).pending_input() == old(self).pending_input(),
            final(self).forwarded_bytes() == old(self).forwarded_bytes(),
            keeps_size(old(self).emu(), final(self).emu()),
    {
        self.image_placements.upsert(placement);
        proof {
            let s = old(self).placements();
            let u = spec_upsert(s, placement);
            assert forall|i: int| 0 <= i < u.len() implies #[trigger] u[i].anchor.row + u[i].rows <= isize::MAX by {
                if i < s.len() && u[i] != placement {
                    assert(u[i] == s[i]);
                }
            }
        }
        self.mark_full_damage();
    }

    /// Removes the placement with this id; the screen is drawn again when
    /// one was removed.
    pub fn remove_image_placement(&mut self, placement_id: ImagePlacementId)
        requires
            old(self).wf(),
        ensures
            final(self).wf(),
            final(self).placements() == old(self).placements().filter(keeps_placement(placement_id)),
            final(self).placements().len() != old(self).placements().len()
                ==> final(self).damage_view() == DamageView::Full,
            final(self).placements().len() == old(self).placements().len()
                ==> final(self).damage_view() == old(self).damage_view(),
            final(self).selection_state() == old(self).selection_state(),
            final(self).pending_input() == old(self).pending_input(),
            final(self).forwarded_bytes() == old(self).forwarded_bytes(),
            keeps_size(old(self).emu(), final(self).emu()),
    {
        let ghost s = self.image_placements@;
        if self.image_placements.remove(placement_id) {
            proof { lemma_filter_keeps_fit(s, keeps_placement(placement_id)); }
            self.mark_full_damage();
        }
        proof { lemma_filter_keeps_fit(s, keeps_placement(placement_id)); }
    }

    /// Removes the placements of one image; the screen is drawn again when
    /// one was removed.
    pub fn remove_image_placements(&mut self, image_id: ImageId)
        requires
            old(self).wf(),
        ensures
            final(self).wf(),
            final(self).placements() == old(self).placements().filter(keeps_image(image_id)),
            final(self).placements().len() != old(self).placements().len()
                ==> final(self).damage_view() == DamageView::Full,
            final(self).placements().len() == old(self).placements().len()
                ==> final(self).damage_view() == old(self).damage_view(),
            final(self).selection_state() == old(self).selection_state(),
            final(self).pending_input() == old(self).pending_input(),
            final(self).forwarded_bytes() == old(self).forwarded_bytes(),
            keeps_size(old(self).emu(), final(self).emu()),
    {
        let ghost s = self.image_placements@;
        if self.image_placements.remove_image(image_id) {
            proof { lemma_filter_keeps_fit(s, keeps_image(image_id)); }
            self.mark_full_damage();
        }
        proof { lemma_filter_keeps_fit(s, keeps_image(image_id)); }
    }

    /// Removes every placement; the screen is drawn again when there was one.
    pub fn clear_image_placements(&mut self)
        requires
            old(self).wf(),
        ensures
            final(self).wf(),
            final(self).placements().len() == 0,
            old(self).placements().len() > 0 ==> final(self).damage_view() == DamageView::Full,
            old(self).placements().len() == 0 ==> final(self).damage_view() == old(self).damage_view(),
            final(self).emu() == old(self).emu(),
            final(self).selection_state() == old(self).selection_state(),
            final(self).pending_input() == old(self).pending_input(),
            final(self).title() == old(self).title(),
            final(self).pending_title() == old(self).pending_title(),
            final(self).mouse() == old(self).mouse(),
            final(self).forwarded_bytes() == old(self).forwarded_bytes(),
            keeps_size(old(self).emu(), final(self).emu()),
    {
        if self.image_placements.clear() {
            self.mark_full_damage();
        }
    }

    /// The images the placements show, in placement order.
    pub fn image_placement_ids(&self) -> (r: Vec<ImageId>)
        ensures
            r@ == self.placements().map_values(|p: ImagePlacement| p.image_id),
    {
        self.image_placements.image_ids()
    }

    /// The ids of the placements, in order.
    pub fn placement_ids(&self) -> (r: Vec<ImagePlacementId>)
        ensures
            r@ == self.placements().map_values(|p: ImagePlacement| p.placement_id),
    {
        self.image_placements.placement_ids()
    }

    /// Moves the placements up by the lines the history grew since it held
    /// `previous_history` lines, dropping those that left it.
    fn apply_output_scroll(&mut self, previous_history: usize)
        requires
            old(self).wf(),
        ensures
            final(self).wf(),
            final(self).emu() == old(self).emu(),
            ({
                let current = if emulator_history(old(self).emu()) <= isize::MAX {
                    emulator_history(old(self).emu())
                } else {
                    isize::MAX as usize
                };
                final(self).placements() == spec_after_output_scroll(
                    old(self).placements(),
                    history_shift(previous_history, current),
                    current,
                )
            }),
            damage_kept(old(self).damage_view(), final(self).damage_view()),
            final(self).damage_view() == old(self).damage_view() || final(self).damage_view() == DamageView::Full,
            final(self).selection_state() == old(self).selection_state(),
            final(self).pending_input() == old(self).pending_input(),
            final(self).title() == old(self).title(),
            final(self).pending_title() == old(self).pending_title(),
            final(self).mouse() == old(self).mouse(),
            final(self).forwarded_bytes() == old(self).forwarded_bytes(),
            keeps_size(old(self).emu(), final(self).emu()),
    {
        let history = self.emulator.history_size();
        let current = if history <= isize::MAX as usize { history } else { isize::MAX as usize };
        let ghost s = self.image_placements@;
        proof {
            lemma_after_output_scroll_fits(s, history_shift(previous_history, current), current);
        }
        if self.image_placements.follow_output_scroll(previous_history, current) {
            self.mark_full_damage();
        }
    }

    /// Merges the emulator's damage into the damage still to draw, and
    /// resets the emulator's.
    fn collect_damage(&mut self)
        requires
            old(self).wf(),
        ensures
            final(self).wf(),
            damage_kept(old(self).damage_view(), final(self).damage_view()),
            merged_with_report(old(self).damage_view(), final(self).damage_view()),
            final(self).selection_state() == old(self).selection_state(),
            final(self).pending_input() == old(self).pending_input(),
            final(self).placements() == old(self).placements(),
            final(self).title() == old(self).title(),
            final(self).pending_title() == old(self).pending_title(),
            final(self).mouse() == old(self).mouse(),
            final(self).forwarded_bytes() == old(self).forwarded_bytes(),
            keeps_size(old(self).emu(), final(self).emu()),
    {
        let lines = self.emulator.damage();
        let ghost lines_view: Option<Seq<LineDamage>> = match &lines {
            Some(l) => Some(l@),
            None => None,
        };
        let reported = reported_damage(lines);
        self.emulator.reset_damage();
        self.merge_into_damage(reported);
        assert(self.damage_view() == spec_merge_damage(old(self).damage_view(), spec_reported_damage(lines_view)));
    }

    /// Hands `bytes` to the emulator and records them.
    fn forward(&mut self, bytes: &[u8])
        requires
            old(self).wf(),
        ensures
            final(self).wf(),
            final(self).forwarded_bytes() == old(self).forwarded_bytes() + bytes@,
            final(self).selection_state() == old(self).selection_state(),
            final(self).pending_input() == old(self).pending_input(),
            final(self).placements() == old(self).placements(),
            final(self).damage_view() == old(self).damage_view(),
            final(self).title() == old(self).title(),
            final(self).pending_title() == old(self).pending_title(),
            final(self).mouse() == old(self).mouse(),
            keeps_size(old(self).emu(), final(self).emu()),
    {
        self.emulator.advance(bytes);
    }

    /// Moves the cursor below an image `rows` rows tall, following the
    /// output scroll; the screen is drawn again.
    pub fn advance_after_image_rows(&mut self, rows: u16)
        requires
            old(self).wf(),
        ensures
            final(self).wf(),
            rows == 0 ==> *final(self) == *old(self),
            rows > 0 ==> final(self).damage_view() == DamageView::Full,
            rows > 0 ==> follows_output_scroll(old(self).placements(), final(self).placements()),
            final(self).forwarded_bytes() == old(self).forwarded_bytes() + line_breaks(rows as nat),
            final(self).selection_state() == old(self).selection_state(),
            final(self).pending_input() == old(self).pending_input(),
            keeps_size(old(self).emu(), final(self).emu()),
    {
        if rows == 0 {
            assert(line_breaks(0) =~= Seq::<u8>::empty());
            assert(old(self).forwarded_bytes() + line_breaks(0) =~= old(self).forwarded_bytes());
            return;
        }
        let previous_history = self.emulator.history_size();
        let mut i: u16 = 0;
        while i < rows
            invariant
                self.wf(),
                self.selection_state() == old(self).selection_state(),
                self.pending_input() == old(self).pending_input(),
                self.placements() == old(self).placements(),
                i <= rows,
                self.forwarded_bytes() == old(self).forwarded_bytes() + line_breaks(i as nat),
                keeps_size(old(self).emu(), self.emu()),
            decreases rows - i,
        {
            let crlf: [u8; 2] = [0x0du8, 0x0au8];
            self.forward(&crlf);
            assert(line_breaks((i + 1) as nat) =~= line_breaks(i as nat) + crlf@);
            assert(old(self).forwarded_bytes() + line_breaks((i + 1) as nat)
                =~= old(self).forwarded_bytes() + line_breaks(i as nat) + crlf@);
            i += 1;
        }
        self.apply_output_scroll(previous_history);
        self.collect_damage();
        self.mark_full_damage();
    }

    /// Moves the cursor to the cell after a Kitty image of `columns` x
    /// `rows` cells, following the output scroll; the screen is drawn
    /// again. Nothing happens for an empty image.
    pub fn move_after_kitty_image(&mut self, columns: u16, rows: u16)
        requires
            old(self).wf(),
        ensures
            final(self).wf(),
            columns == 0 || rows == 0 ==> *final(self) == *old(self),
            columns > 0 && rows > 0 ==> final(self).damage_view() == DamageView::Full,
            columns > 0 && rows > 0 ==> follows_output_scroll(old(self).placements(), final(self).placements()),
            columns > 0 && rows > 0 ==> final(self).forwarded_bytes() == old(self).forwarded_bytes()
                + spec_kitty_cursor_move(emulator_cursor(old(self).emu()).0, emulator_columns(old(self).emu()), columns, rows)->0,
            final(self).selection_state() == old(self).selection_state(),
            final(self).pending_input() == old(self).pending_input(),
            keeps_size(old(self).emu(), final(self).emu()),
    {
        let (terminal_columns, _) = self.emulator.size();
        let (cursor_column, _) = self.emulator.cursor_point();
        let sequence = match kitty_cursor_move_sequence(cursor_column, terminal_columns, columns, rows) {
            Some(sequence) => sequence,
            None => return,
        };
        let previous_history = self.emulator.history_size();
        self.forward(sequence.as_slice());
        self.apply_output_scroll(previous_history);
        self.collect_damage();
        self.mark_full_damage();
    }

    /// Lines of history above the screen.
    pub fn scrollback_len(&self) -> (r: usize)
        ensures
            r == emulator_history(self.emu()),
    {
        self.emulator.history_size()
    }

    /// How many lines the view is scrolled back.
    pub fn scroll_offset(&self) -> (r: usize)
        ensures
            r == emulator_display_offset(self.emu()),
    {
        self.emulator.display_offset()
    }

    /// Scrolls the view; when it moved, the screen is drawn again and
    /// `Damage::Full` is returned, else `Damage::Clean`.
    fn scroll_display(&mut self, scroll: DisplayScroll) -> (d: Damage)
        requires
            old(self).wf(),
            scroll matches DisplayScroll::Delta(count) ==> emulator_display_offset(old(self).emu()) <= i32::MAX
                && i32::MIN <= emulator_display_offset(old(self).emu()) + count <= i32::MAX,
        ensures
            final(self).wf(),
            emulator_display_offset(final(self).emu()) == scrolled_offset(
                emulator_display_offset(old(self).emu()),
                emulator_history(old(self).emu()),
                scroll,
            ),
            d@ == DamageView::Clean || d@ == DamageView::Full,
            (d@ == DamageView::Full) == (emulator_display_offset(final(self).emu()) != emulator_display_offset(old(self).emu())),
            d@ == DamageView::Full ==> final(self).damage_view() == DamageView::Full,
            d@ == DamageView::Clean ==> final(self).damage_view() == old(self).damage_view(),
            final(self).selection_state() == old(self).selection_state(),
            final(self).pending_input() == old(self).pending_input(),
            final(self).placements() == old(self).placements(),
            final(self).title() == old(self).title(),
            final(self).pending_title() == old(self).pending_title(),
            final(self).mouse() == old(self).mouse(),
            final(self).forwarded_bytes() == old(self).forwarded_bytes(),
            emulator_history(final(self).emu()) == emulator_history(old(self).emu()),
            emulator_columns(final(self).emu()) == emulator_columns(old(self).emu()),
            emulator_screen_lines(final(self).emu()) == emulator_screen_lines(old(self).emu()),
    {
        let previous = self.emulator.display_offset();
        self.emulator.scroll_display(scroll);
        if self.emulator.display_offset() == previous {
            Damage::Clean
        } else {
            self.mark_full_damage();
            Damage::Full
        }
    }

    /// Scrolls the view up by `lines`, at most to the oldest history line:
    /// the offset becomes `min(offset + lines, history)` (when the history
    /// fits an `i32`, as the emulator's arithmetic needs).
    pub fn scroll_up_lines(&mut self, lines: usize) -> (d: Damage)
        requires
            old(self).wf(),
        ensures
            final(self).wf(),
            emulator_history(old(self).emu()) <= i32::MAX ==> emulator_display_offset(final(self).emu()) == (if emulator_display_offset(old(self).emu()) + lines < emulator_history(old(self).emu()) {
                (emulator_display_offset(old(self).emu()) + lines) as usize
            } else {
                emulator_history(old(self).emu())
            }),
            d@ == DamageView::Clean || d@ == DamageView::Full,
            (d@ == DamageView::Full) == (emulator_display_offset(final(self).emu()) != emulator_display_offset(old(self).emu())),
            d@ == DamageView::Full ==> final(self).damage_view() == DamageView::Full,
            d@ == DamageView::Clean ==> final(self).damage_view() == old(self).damage_view(),
            final(self).selection_state() == old(self).selection_state(),
            final(self).pending_input() == old(self).pending_input(),
            final(self).placements() == old(self).placements(),
            final(self).title() == old(self).title(),
            final(self).pending_title() == old(self).pending_title(),
            final(self).mouse() == old(self).mouse(),
            final(self).forwarded_bytes() == old(self).forwarded_bytes(),
            emulator_history(final(self).emu()) == emulator_history(old(self).emu()),
            emulator_columns(final(self).emu()) == emulator_columns(old(self).emu()),
            emulator_screen_lines(final(self).emu()) == emulator_screen_lines(old(self).emu()),
            keeps_size(old(self).emu(), final(self).emu()),
    {
        let history = self.emulator.history_size();
        let offset = self.emulator.display_offset();
        if offset > 0x7fff_ffff {
            return Damage::Clean;
        }
        let room = history - offset;
        let n = if lines < room { lines } else { room };
        if n == 0 {
            return Damage::Clean;
        }
        let cap: usize = 0x7fff_ffff - offset;
        let delta: i32 = if n > cap { cap as i32 } else { n as i32 };
        self.scroll_display(DisplayScroll::Delta(delta))
    }

    /// Scrolls the view down by `lines`, at most to the live screen: the
    /// offset becomes `offset - min(lines, offset)` (when the history fits an
    /// `i32`).
    pub fn scroll_down_lines(&mut self, lines: usize) -> (d: Damage)
        requires
            old(self).wf(),
        ensures
            final(self).wf(),
            emulator_history(old(self).emu()) <= i32::MAX ==> emulator_display_offset(final(self).emu()) == (if lines < emulator_display_offset(old(self).emu()) {
                (emulator_display_offset(old(self).emu()) - lines) as usize
            } else {
                0usize
            }),
            d@ == DamageView::Clean || d@ == DamageView::Full,
            (d@ == DamageView::Full) == (emulator_display_offset(final(self).emu()) != emulator_display_offset(old(self).emu())),
            d@ == DamageView::Full ==> final(self).damage_view() == DamageView::Full,
            d@ == DamageView::Clean ==> final(self).damage_view() == old(self).damage_view(),
            final(self).selection_state() == old(self).selection_state(),
            final(self).pending_input() == old(self).pending_input(),
            final(self).placements() == old(self).placements(),
            final(self).title() == old(self).title(),
            final(self).pending_title() == old(self).pending_title(),
            final(self).mouse() == old(self).mouse(),
            final(self).forwarded_bytes() == old(self).forwarded_bytes(),
            emulator_history(final(self).emu()) == emulator_history(old(self).emu()),
            emulator_columns(final(self).emu()) == emulator_columns(old(self).emu()),
            emulator_screen_lines(final(self).emu()) == emulator_screen_lines(old(self).emu()),
            keeps_size(old(self).emu(), final(self).emu()),
    {
        let offset = self.emulator.display_offset();
        if offset > 0x7fff_ffff {
            return Damage::Clean;
        }
        let n = if lines < offset { lines } else { offset };
        if n == 0 {
            return Damage::Clean;
        }
        let delta: i32 = -(n as i32);
        self.scroll_display(DisplayScroll::Delta(delta))
    }

    /// Scrolls the view to the oldest history line.
    pub fn scroll_to_top(&mut self) -> (d: Damage)
        requires
            old(self).wf(),
        ensures
            final(self).wf(),
            emulator_display_offset(final(self).emu()) == emulator_history(old(self).emu()),
            d@ == DamageView::Clean || d@ == DamageView::Full,
            (d@ == DamageView::Full) == (emulator_display_offset(final(self).emu()) != emulator_display_offset(old(self).emu())),
            d@ == DamageView::Full ==> final(self).damage_view() == DamageView::Full,
            d@ == DamageView::Clean ==> final(self).damage_view() == old(self).damage_view(),
            final(self).selection_state() == old(self).selection_state(),
            final(self).pending_input() == old(self).pending_input(),
            final(self).placements() == old(self).placements(),
            final(self).title() == old(self).title(),
            final(self).pending_title() == old(self).pending_title(),
            final(self).mouse() == old(self).mouse(),
            final(self).forwarded_bytes() == old(self).forwarded_bytes(),
            emulator_history(final(self).emu()) == emulator_history(old(self).emu()),
            emulator_columns(final(self).emu()) == emulator_columns(old(self).emu()),
            emulator_screen_lines(final(self).emu()) == emulator_screen_lines(old(self).emu()),
            keeps_size(old(self).emu(), final(self).emu()),
    {
        self.scroll_display(DisplayScroll::Top)
    }

    /// Scrolls the view to the live screen.
    pub fn scroll_to_bottom(&mut self) -> (d: Damage)
        requires
            old(self).wf(),
        ensures
            final(self).wf(),
            emulator_display_offset(final(self).emu()) == 0,
            d@ == DamageView::Clean || d@ == DamageView::Full,
            (d@ == DamageView::Full) == (emulator_display_offset(final(self).emu()) != emulator_display_offset(old(self).emu())),
            d@ == DamageView::Full ==> final(self).damage_view() == DamageView::Full,
            d@ == DamageView::Clean ==> final(self).damage_view() == old(self).damage_view(),
            final(self).selection_state() == old(self).selection_state(),
            final(self).pending_input() == old(self).pending_input(),
            final(self).placements() == old(self).placements(),
            final(self).title() == old(self).title(),
            final(self).pending_title() == old(self).pending_title(),
            final(self).mouse() == old(self).mouse(),
            final(self).forwarded_bytes() == old(self).forwarded_bytes(),
            emulator_history(final(self).emu()) == emulator_history(old(self).emu()),
            emulator_columns(final(self).emu()) == emulator_columns(old(self).emu()),
            emulator_screen_lines(final(self).emu()) == emulator_screen_lines(old(self).emu()),
            keeps_size(old(self).emu(), final(self).emu()),
    {
        self.scroll_display(DisplayScroll::Bottom)
    }

    /// Whether the view shows history rather than the live screen.
    pub fn is_scrolled_back(&self) -> (r: bool)
        ensures
            r == (emulator_display_offset(self.emu()) > 0),
    {
        self.emulator.display_offset() > 0
    }

    /// The grid's `(columns, rows)`.
    pub fn size(&self) -> (r: (usize, usize))
        ensures
            r == (emulator_columns(self.emu()), emulator_screen_lines(self.emu())),
    {
        self.emulator.size()
    }

    pub fn window_title(&self) -> (r: &str)
        ensures
            r@ == self.title(),
    {
        self.window_title.as_str()
    }

    /// The title change not yet reported, which is then cleared.
    pub fn take_window_title_changed(&mut self) -> (r: Option<String>)
        ensures
            match r {
                Some(t) => old(self).pending_title() == Some(t@)
                    && (old(self).wf() ==> t@ == old(self).title()),
                None => old(self).pending_title() is None,
            },
            final(self).pending_title() is None,
            final(self).title() == old(self).title(),
            final(self).selection_state() == old(self).selection_state(),
            final(self).placements() == old(self).placements(),
            final(self).damage_view() == old(self).damage_view(),
            old(self).wf() ==> final(self).wf(),
            final(self).forwarded_bytes() == old(self).forwarded_bytes(),
            keeps_size(old(self).emu(), final(self).emu()),
    {
        self.pending_window_title.take()
    }

    /// Takes on the latest of the title changes the application made: a
    /// new title without control characters (an empty one for a reset),
    /// also reported as changed. Nothing changes without one.
    pub fn apply_title_change(&mut self, latest: Option<Option<String>>)
        ensures
            match latest {
                None => final(self).title() == old(self).title()
                    && final(self).pending_title() == old(self).pending_title(),
                Some(sent) => {
                    let sent_text = match sent {
                        Some(t) => t@,
                        None => Seq::<char>::empty(),
                    };
                    &&& final(self).title() == spec_sanitize_window_title(sent_text)
                    &&& final(self).pending_title() == Some(final(self).title())
                },
            },
            final(self).emu() == old(self).emu(),
            final(self).selection_state() == old(self).selection_state(),
            final(self).pending_input() == old(self).pending_input(),
            final(self).placements() == old(self).placements(),
            final(self).damage_view() == old(self).damage_view(),
            final(self).mouse() == old(self).mouse(),
            old(self).wf() ==> final(self).wf(),
            final(self).forwarded_bytes() == old(self).forwarded_bytes(),
            keeps_size(old(self).emu(), final(self).emu()),
    {
        let sent = match latest {
            Some(sent) => sent,
            None => return,
        };
        let title = match sent {
            Some(t) => sanitize_window_title(t.as_str()),
            None => sanitize_window_title(""),
        };
        proof {
            if sent is None {
                reveal_strlit("");
            }
        }
        self.window_title = title.clone();
        self.pending_window_title = Some(title);
    }

    fn apply_title_events(&mut self)
        requires
            old(self).wf(),
        ensures
            final(self).wf(),
            title_followed(old(self).title(), old(self).pending_title(), final(self).title(), final(self).pending_title()),
            final(self).selection_state() == old(self).selection_state(),
            final(self).pending_input() == old(self).pending_input(),
            final(self).placements() == old(self).placements(),
            final(self).damage_view() == old(self).damage_view(),
            final(self).mouse() == old(self).mouse(),
            final(self).forwarded_bytes() == old(self).forwarded_bytes(),
            keeps_size(old(self).emu(), final(self).emu()),
    {
        let mut titles = self.emulator.take_titles();
        let latest = titles.pop();
        let ghost l = latest;
        self.apply_title_change(latest);
        proof {
            if let Some(sent) = l {
                let sent_text = match sent {
                    Some(t) => t@,
                    None => Seq::<char>::empty(),
                };
                assert(self.title() == spec_sanitize_window_title(sent_text));
            }
        }
    }

    fn apply_compat_action(&mut self, action: &CompatAction)
        requires
            old(self).wf(),
        ensures
            final(self).wf(),
            final(self).mouse() == match action@ {
                crate::term::compat::CompatActionView::PrivateModes { modes, enabled } =>
                    modes_after_list(old(self).mouse(), modes, enabled),
                _ => old(self).mouse(),
            },
            final(self).forwarded_bytes() == old(self).forwarded_bytes()
                + step_bytes(Seq::empty(), CompatStepView::Action(action@)),
            final(self).selection_state() == old(self).selection_state(),
            final(self).pending_input() == old(self).pending_input(),
            final(self).placements() == old(self).placements(),
            final(self).damage_view() == old(self).damage_view(),
            final(self).title() == old(self).title(),
            final(self).pending_title() == old(self).pending_title(),
            keeps_size(old(self).emu(), final(self).emu()),
    {
        match action {
            CompatAction::SetAltScreen => {
                if !self.emulator.alt_screen_active() {
                    self.emulator.swap_alt();
                }
            },
            CompatAction::ResetAltScreen => {
                if self.emulator.alt_screen_active() {
                    self.emulator.swap_alt();
                }
            },
            CompatAction::SaveCursor => {
                let save: [u8; 2] = [0x1bu8, 0x37u8];
                self.forward(&save);
                assert(save@ =~= seq![0x1bu8, 0x37u8]);
            },
            CompatAction::RestoreCursor => {
                let restore: [u8; 2] = [0x1bu8, 0x38u8];
                self.forward(&restore);
                assert(restore@ =~= seq![0x1bu8, 0x38u8]);
            },
            CompatAction::PrivateModes { modes, enabled } => {
                let enabled = *enabled;
                let ghost v = modes@;
                let mut i: usize = 0;
                while i < modes.len()
                    invariant
                        i <= modes@.len(),
                        v == modes@,
                        self.mouse() == modes_after_list(old(self).mouse(), v.take(i as int), enabled),
                        self.wf(),
                        self.selection_state() == old(self).selection_state(),
                        self.pending_input() == old(self).pending_input(),
                        self.placements() == old(self).placements(),
                        self.damage_view() == old(self).damage_view(),
                        self.title() == old(self).title(),
                        self.pending_title() == old(self).pending_title(),
                        self.forwarded_bytes() == old(self).forwarded_bytes(),
                        keeps_size(old(self).emu(), self.emu()),
                    decreases modes@.len() - i,
                {
                    self.mouse_state.apply_private_mode(modes[i], enabled);
                    assert(v.take(i + 1).drop_last() =~= v.take(i as int));
                    i += 1;
                }
                assert(v.take(v.len() as int) =~= v);
            },
        }
        proof {
            if !(action@ is SaveCursor) && !(action@ is RestoreCursor) {
                assert(old(self).forwarded_bytes() + Seq::<u8>::empty() =~= old(self).forwarded_bytes());
            }
        }
    }

    /// Feeds `input` through the plan of sequences handled ahead of the
    /// emulator; returns how much was consumed.
    fn process_compat_input(&mut self, input: &[u8]) -> (consumed: usize)
        requires
            old(self).wf(),
        ensures
            final(self).wf(),
            consumed as int == spec_plan_from(input@, 0, 0).1,
            final(self).mouse() == modes_after_steps(old(self).mouse(), spec_plan_from(input@, 0, 0).0),
            final(self).forwarded_bytes() == old(self).forwarded_bytes() + forwarded_by_steps(input@, spec_plan_from(input@, 0, 0).0),
            final(self).selection_state() == old(self).selection_state(),
            final(self).pending_input() == old(self).pending_input(),
            final(self).placements() == old(self).placements(),
            final(self).damage_view() == old(self).damage_view(),
            final(self).title() == old(self).title(),
            final(self).pending_title() == old(self).pending_title(),
            keeps_size(old(self).emu(), final(self).emu()),
    {
        let plan = plan_compat_input(input);
        proof {
            lemma_plan_covers_consumed_prefix(input@);
        }
        let ghost steps = steps_view(plan.steps@);
        let mut i: usize = 0;
        while i < plan.steps.len()
            invariant
                i <= plan.steps@.len(),
                steps == steps_view(plan.steps@),
                steps == spec_plan_from(input@, 0, 0).0,
                plan.consumed as int == spec_plan_from(input@, 0, 0).1,
                plan.consumed <= input@.len(),
                forall|j: int| 0 <= j < steps.len() ==> (#[trigger] steps[j] matches CompatStepView::Vte(a, b)
                    ==> 0 <= a < b <= plan.consumed),
                self.mouse() == modes_after_steps(old(self).mouse(), steps.take(i as int)),
                self.forwarded_bytes() == old(self).forwarded_bytes() + forwarded_by_steps(input@, steps.take(i as int)),
                keeps_size(old(self).emu(), self.emu()),
                self.wf(),
                self.selection_state() == old(self).selection_state(),
                self.pending_input() == old(self).pending_input(),
                self.placements() == old(self).placements(),
                self.damage_view() == old(self).damage_view(),
                self.title() == old(self).title(),
                self.pending_title() == old(self).pending_title(),
            decreases plan.steps@.len() - i,
        {
            assert(steps.take(i + 1).drop_last() =~= steps.take(i as int));
            assert(steps.take(i + 1).last() == steps[i as int]);
            assert(steps[i as int] == plan.steps@[i as int]@);
            match &plan.steps[i] {
                CompatStep::Vte { start, end } => {
                    if *start < *end {
                        let piece = &input[*start..*end];
                        self.forward(piece);
                        assert(piece@ == input@.subrange(*start as int, *end as int));
                    }
                },
                CompatStep::Action(action) => {
                    self.apply_compat_action(action);
                },
            }
            assert(forwarded_by_steps(input@, steps.take(i + 1))
                == forwarded_by_steps(input@, steps.take(i as int)) + step_bytes(input@, steps[i as int]));
            assert(self.forwarded_bytes() =~= old(self).forwarded_bytes() + forwarded_by_steps(input@, steps.take(i + 1)));
            i += 1;
        }
        assert(steps.take(steps.len() as int) =~= steps);
        plan.consumed
    }

    /// Feeds PTY output to the terminal. Nothing happens for no bytes.
    /// Otherwise the kept bytes of an unfinished sequence come first; the
    /// sequences handled ahead of the emulator are applied, the rest goes to
    /// the emulator, and an unfinished sequence at the end is kept for the
    /// next chunk. The selection is cleared, a full reset (`ESC c`) drops
    /// the image placements, the placements follow the output scroll, the
    /// latest title change is taken on, and the emulator's damage joins the
    /// damage still to draw.
    pub fn feed(&mut self, bytes: &[u8])
        requires
            old(self).wf(),
        ensures
            keeps_size(old(self).emu(), final(self).emu()),
            final(self).wf(),
            bytes@.len() == 0 ==> *final(self) == *old(self),
            bytes@.len() > 0 ==> {
                let input = old(self).pending_input() + bytes@;
                let plan = spec_plan_from(input, 0, 0);
                &&& final(self).pending_input() == input.skip(plan.1)
                &&& final(self).selection_state() is None
                &&& spec_contains_full_reset(input) ==> final(self).placements().len() == 0
                &&& final(self).mouse() == modes_after_steps(old(self).mouse(), plan.0)
                &&& final(self).forwarded_bytes() == old(self).forwarded_bytes() + forwarded_by_steps(input, plan.0)
                &&& damage_kept(old(self).damage_view(), final(self).damage_view())
                &&& final(self).damage_view() == DamageView::Full
                    || merged_with_report(old(self).damage_view(), final(self).damage_view())
                &&& old(self).selection_state() is Some ==> final(self).damage_view() == DamageView::Full
                &&& spec_contains_full_reset(input) && old(self).placements().len() > 0
                    ==> final(self).damage_view() == DamageView::Full
                &&& title_followed(old(self).title(), old(self).pending_title(), final(self).title(), final(self).pending_title())
            },
    {
        if bytes.len() == 0 {
            return;
        }
        let ghost start = *self;
        self.clear_selection();
        let ghost after_clear = *self;
        self.scroll_to_bottom();
        let ghost after_scroll = *self;
        let previous_history = self.emulator.history_size();

        let mut input: Vec<u8> = Vec::new();
        std::mem::swap(&mut self.pending_compat_input, &mut input);
        let mut i: usize = 0;
        while i < bytes.len()
            invariant
                i <= bytes@.len(),
                input@ == start.pending_input() + bytes@.take(i as int),
            decreases bytes@.len() - i,
        {
            input.push(bytes[i]);
            assert(input@ =~= start.pending_input() + bytes@.take(i + 1));
            i += 1;
        }
        assert(bytes@.take(bytes@.len() as int) =~= bytes@);
        let reset_images = contains_full_reset(input.as_slice());
        self.pending_compat_input = Vec::new();
        let ghost before_process = *self;
        let consumed = self.process_compat_input(input.as_slice());
        proof {
            lemma_plan_covers_consumed_prefix(input@);
        }
        let mut rest: Vec<u8> = Vec::new();
        let mut k: usize = consumed;
        while k < input.len()
            invariant
                consumed <= k <= input@.len(),
                rest@ == input@.subrange(consumed as int, k as int),
            decreases input@.len() - k,
        {
            rest.push(input[k]);
            assert(rest@ =~= input@.subrange(consumed as int, k + 1));
            k += 1;
        }
        assert(input@.subrange(consumed as int, input@.len() as int) =~= input@.skip(consumed as int));
        self.pending_compat_input = rest;
        let ghost after_process = *self;
        if reset_images {
            self.clear_image_placements();
        }
        let ghost after_reset = *self;
        self.apply_title_events();
        let ghost after_title = *self;
        self.apply_output_scroll(previous_history);
        proof {
            if reset_images {
                lemma_after_output_scroll_fits(after_title.placements(), 0, 0);
                assert(after_title.placements().len() == 0);
                assert(self.placements().len() == 0) by {
                    lemma_empty_after_output_scroll(after_title.placements(), previous_history, emulator_history(after_title.emu()));
                }
            }
        }
        let ghost after_output = *self;
        self.collect_damage();
        proof {
            lemma_damage_kept_chain(start.damage_view(), after_clear.damage_view(), after_scroll.damage_view());
            lemma_damage_kept_chain(start.damage_view(), after_scroll.damage_view(), after_reset.damage_view());
            lemma_damage_kept_chain(start.damage_view(), after_reset.damage_view(), after_output.damage_view());
            lemma_damage_kept_chain(start.damage_view(), after_output.damage_view(), self.damage_view());
            if start.selection_state() is Some {
                lemma_full_stays_full(after_clear.damage_view(), self.damage_view(), after_scroll.damage_view(), after_reset.damage_view(), after_output.damage_view());
            }
            if after_output.damage_view() == DamageView::Full {
                assert(self.damage_view() == DamageView::Full);
            } else {
                assert(after_output.damage_view() == start.damage_view());
            }
            if reset_images && start.placements().len() > 0 {
                assert(after_reset.damage_view() == DamageView::Full);
                lemma_full_stays_full(after_reset.damage_view(), self.damage_view(), after_reset.damage_view(), after_reset.damage_view(), after_output.damage_view());
            }
        }
    }

    pub fn bracketed_paste_enabled(&self) -> (r: bool)
        ensures
            r == emulator_bracketed_paste(self.emu()),
    {
        self.emulator.bracketed_paste()
    }

    pub fn alternate_screen_enabled(&self) -> (r: bool)
        ensures
            r == emulator_alt_screen(self.emu()),
    {
        self.emulator.alt_screen_active()
    }

    /// The mouse and focus reporting modes the application asked for.
    pub fn mouse_modes(&self) -> (m: MouseModes)
        ensures
            m == (MouseModes {
                protocol: self.mouse().spec_protocol(),
                encoding: self.mouse().encoding,
                focus_events: self.mouse().focus_events,
            }),
    {
        self.mouse_state.modes()
    }

    pub fn focus_events_enabled(&self) -> (r: bool)
        ensures
            r == self.mouse().focus_events,
    {
        self.mouse_state.focus_events
    }

    /// The report of a mouse event for the PTY, under the current modes.
    pub fn encode_mouse_event(&self, event: TerminalMouseEvent) -> (r: Option<Vec<u8>>)
        ensures
            ({
                let modes = MouseModes {
                    protocol: self.mouse().spec_protocol(),
                    encoding: self.mouse().encoding,
                    focus_events: self.mouse().focus_events,
                };
                match r {
                    Some(b) => spec_encode_mouse_event(modes, event) == Some(b@),
                    None => spec_encode_mouse_event(modes, event) is None,
                }
            }),
    {
        encode_mouse_event(self.mouse_modes(), event)
    }

    /// The focus report for the PTY, when the application asked for one.
    pub fn encode_focus_event(&self, focused: bool) -> (r: Option<Vec<u8>>)
        ensures
            match r {
                Some(b) => spec_encode_focus_event(self.mouse().focus_events, focused) == Some(b@),
                None => spec_encode_focus_event(self.mouse().focus_events, focused) is None,
            },
    {
        encode_focus_event(self.focus_events_enabled(), focused)
    }

    /// Pasted bytes, wrapped in bracketed-paste markers when that mode is on.
    pub fn paste_bytes(&self, bytes: &[u8]) -> (r: Vec<u8>)
        ensures
            r@ == if emulator_bracketed_paste(self.emu()) {
                bracketed_paste_start() + bytes@ + bracketed_paste_end()
            } else {
                bytes@
            },
    {
        paste_bytes(self.bracketed_paste_enabled(), bytes)
    }

    fn geometry(&self) -> (g: SelectionGeometry)
        ensures
            g == spec_geometry(self.emu()),
    {
        let (cols, rows) = self.emulator.size();
        SelectionGeometry {
            cols,
            rows,
            history: self.emulator.history_size(),
            display_offset: self.emulator.display_offset(),
        }
    }

    /// The logical point of a visible cell, if it is on the grid.
    pub fn selection_point_for_visible_cell(&self, col: usize, row: usize) -> (r: Option<SelectionPoint>)
        ensures
            r == spec_point_for_visible_cell(spec_geometry(self.emu()), col, row),
    {
        selection_point_for_visible_cell(self.geometry(), col, row)
    }

    /// Clears the selection; the screen is drawn again when there was one.
    pub fn clear_selection(&mut self)
        requires
            old(self).wf(),
        ensures
            final(self).wf(),
            final(self).selection_state() is None,
            old(self).selection_state() is Some ==> final(self).damage_view() == DamageView::Full,
            old(self).selection_state() is None ==> final(self).damage_view() == old(self).damage_view(),
            final(self).emu() == old(self).emu(),
            final(self).pending_input() == old(self).pending_input(),
            final(self).placements() == old(self).placements(),
            final(self).title() == old(self).title(),
            final(self).pending_title() == old(self).pending_title(),
            final(self).mouse() == old(self).mouse(),
            final(self).forwarded_bytes() == old(self).forwarded_bytes(),
            keeps_size(old(self).emu(), final(self).emu()),
    {
        if self.selection.is_some() {
            self.selection = None;
            self.mark_full_damage();
        }
    }

    /// Starts a selection at `point`, clamped to the grid.
    pub fn begin_selection(&mut self, point: SelectionPoint, mode: SelectionMode)
        requires
            old(self).wf(),
        ensures
            final(self).wf(),
            match spec_clamp_point(spec_geometry(old(self).emu()), point) {
                Some(p) => final(self).selection_state() == Some(SelectionState { anchor: p, focus: p, mode, active: true })
                    && final(self).damage_view() == DamageView::Full,
                None => final(self).selection_state() is None,
            },
            final(self).placements() == old(self).placements(),
            final(self).pending_input() == old(self).pending_input(),
            final(self).forwarded_bytes() == old(self).forwarded_bytes(),
            keeps_size(old(self).emu(), final(self).emu()),
    {
        let geometry = self.geometry();
        if begin_selection(&mut self.selection, geometry, point, mode) {
            self.mark_full_damage();
        }
    }

    /// Moves the selection's focus to `point`, clamped to the grid.
    pub fn update_selection(&mut self, point: SelectionPoint)
        requires
            old(self).wf(),
        ensures
            final(self).wf(),
            match (old(self).selection_state(), spec_clamp_point(spec_geometry(old(self).emu()), point)) {
                (Some(s), Some(p)) => final(self).selection_state() == Some(SelectionState { focus: p, ..s })
                    && final(self).damage_view() == DamageView::Full,
                _ => final(self).selection_state() == old(self).selection_state()
                    && final(self).damage_view() == old(self).damage_view(),
            },
            final(self).placements() == old(self).placements(),
            final(self).pending_input() == old(self).pending_input(),
            final(self).forwarded_bytes() == old(self).forwarded_bytes(),
            keeps_size(old(self).emu(), final(self).emu()),
    {
        let geometry = self.geometry();
        if update_selection(&mut self.selection, geometry, point) {
            self.mark_full_damage();
        }
    }

    /// Marks the selection as no longer being dragged.
    pub fn end_selection(&mut self)
        requires
            old(self).wf(),
        ensures
            final(self).wf(),
            match old(self).selection_state() {
                Some(s) => final(self).selection_state() == Some(SelectionState { active: false, ..s })
                    && (s.active ==> final(self).damage_view() == DamageView::Full)
                    && (!s.active ==> final(self).damage_view() == old(self).damage_view()),
                None => final(self).selection_state() is None && final(self).damage_view() == old(self).damage_view(),
            },
            final(self).placements() == old(self).placements(),
            final(self).pending_input() == old(self).pending_input(),
            final(self).forwarded_bytes() == old(self).forwarded_bytes(),
            keeps_size(old(self).emu(), final(self).emu()),
    {
        if end_selection(&mut self.selection) {
            self.mark_full_damage();
        }
    }

    pub fn has_selection(&self) -> (r: bool)
        ensures
            r == (self.selection_state() is Some),
    {
        self.selection.is_some()
    }

    /// The cells of logical row `row`, or none when it is not on the grid.
    fn text_cells(&self, row: isize) -> (r: Vec<TextCell>)
        ensures
            text_cells_match(r@, spec_row_cells(self.emu(), row)),
    {
        let history = self.emulator.history_size();
        let (_, rows) = self.emulator.size();
        if row < -0x8000_0000 || row > 0x7fff_ffff {
            return Vec::new();
        }
        let line = row as i32;
        if line < 0 {
            if (-(line as i64)) as u64 > history as u64 {
                return Vec::new();
            }
        } else if line as usize >= rows {
            return Vec::new();
        }
        let raw = self.emulator.line_cells(line);
        let mut out: Vec<TextCell> = Vec::new();
        let mut i: usize = 0;
        while i < raw.len()
            invariant
                i <= raw@.len(),
                out@.len() == i,
                forall|j: int| 0 <= j < i ==> cell_matches(#[trigger] out@[j], raw@[j]),
            decreases raw@.len() - i,
        {
            out.push(text_cell_from_raw(&raw[i]));
            i += 1;
        }
        out
    }

    /// The characters of the row `point` clamps to.
    fn line_chars_at(&self, point: SelectionPoint) -> (r: Vec<char>)
        ensures
            r@ == spec_line_chars(self.emu(), point),
    {
        let point = match clamp_selection_point(self.geometry(), point) {
            Some(point) => point,
            None => return Vec::new(),
        };
        let cells = self.text_cells(point.row);
        let ghost raw = spec_row_cells(self.emu(), point.row);
        let mut out: Vec<char> = Vec::new();
        let mut i: usize = 0;
        while i < cells.len()
            invariant
                i <= cells@.len(),
                text_cells_match(cells@, raw),
                out@ == raw.take(i as int).map_values(|c: RawCell| c.ch),
            decreases cells@.len() - i,
        {
            assert(cell_matches(cells@[i as int], raw[i as int]));
            out.push(cells[i].ch);
            assert(raw.take(i + 1).map_values(|c: RawCell| c.ch) =~= raw.take(i as int).map_values(|c: RawCell| c.ch).push(raw[i as int].ch));
            i += 1;
        }
        assert(raw.take(cells@.len() as int) =~= raw);
        out
    }

    fn effective_range(&self) -> (r: Option<SelectionRange>)
        ensures
            r == spec_selection_range(self.emu(), self.selection_state()),
    {
        let selection = match self.selection {
            Some(selection) => selection,
            None => return None,
        };
        let anchor_line = self.line_chars_at(selection.anchor);
        let focus_line = self.line_chars_at(selection.focus);
        effective_selection_range(self.geometry(), Some(selection), anchor_line.as_slice(), focus_line.as_slice())
    }

    /// The selected text: each selected row's text (the end cut to the row,
    /// a start on the second half of a wide character taking the whole
    /// character, trailing white space dropped), joined by newlines; nothing
    /// without a selection or when that text is empty.
    pub fn selected_text(&self) -> (r: Option<String>)
        ensures
            match r {
                Some(t) => spec_selected_text(self.emu(), self.selection_state()) == Some(t@),
                None => spec_selected_text(self.emu(), self.selection_state()) is None,
            },
    {
        let range = match self.effective_range() {
            Some(range) => range,
            None => return None,
        };
        if range.end.row < range.start.row {
            return None;
        }
        let (cols, _) = self.emulator.size();
        let last_col = if cols > 0 { cols - 1 } else { 0 };
        let ghost e = self.emu();
        let ghost all = spec_selected_lines(e, range);
        let mut lines: Vec<String> = Vec::new();
        let mut row: isize = range.start.row;
        loop
            invariant_except_break
                lines@.map_values(|l: String| l@) == all.take(row - range.start.row),
            invariant
                range.start.row <= row <= range.end.row,
                spec_selection_range(e, self.selection_state()) == Some(range),
                e == self.emu(),
                last_col == spec_last_col(e),
                all == spec_selected_lines(e, range),
                all.len() == range.end.row - range.start.row + 1,
            ensures
                lines@.map_values(|l: String| l@) == all,
            decreases range.end.row - row,
        {
            let start_col = if row == range.start.row { range.start.col } else { 0 };
            let end_col = if row == range.end.row { range.end.col } else { last_col };
            let cells = self.text_cells(row);
            let text = line_selected_text(cells.as_slice(), start_col, end_col);
            proof {
                lemma_matching_cells_same_text(cells@, spec_row_cells(e, row), start_col, end_col);
                assert(all[row - range.start.row] == text@);
            }
            let ghost before = lines@.map_values(|l: String| l@);
            lines.push(text);
            assert(lines@.map_values(|l: String| l@) =~= before.push(text@));
            assert(all.take(row - range.start.row + 1) =~= all.take(row - range.start.row).push(all[row - range.start.row]));
            if row == range.end.row {
                assert(all.take(row - range.start.row + 1) =~= all);
                break;
            }
            row += 1;
        }
        selection_text(lines.as_slice())
    }

    /// The highlight rectangles of the selection in the viewport.
    pub fn selection_rects(&self) -> (r: Vec<SelectionRect>)
        ensures
            r@ == spec_selection_rects(spec_geometry(self.emu()), spec_selection_range(self.emu(), self.selection_state())),
    {
        let range = self.effective_range();
        selection_rects(self.geometry(), range)
    }

    /// Whether a visible cell is in the selection.
    pub fn selection_contains_visible_cell(&self, col: usize, row: usize) -> (r: bool)
        ensures
            r == match spec_point_for_visible_cell(spec_geometry(self.emu()), col, row) {
                Some(p) => spec_range_contains(spec_geometry(self.emu()), spec_selection_range(self.emu(), self.selection_state()), p),
                None => false,
            },
    {
        let point = match self.selection_point_for_visible_cell(col, row) {
            Some(point) => point,
            None => return false,
        };
        selection_contains_point(self.geometry(), self.effective_range(), point)
    }

    /// The hyperlink of a visible cell: the link of the displayed cell at
    /// that position, if it has one; none outside the grid.
    pub fn hyperlink_at_cell(&self, col: usize, row: usize) -> (r: Option<Hyperlink>)
        ensures
            col >= emulator_columns(self.emu()) || row >= emulator_screen_lines(self.emu()) ==> r is None,
            col < emulator_columns(self.emu()) && row < emulator_screen_lines(self.emu()) ==> match placed_links(
                emulator_displayed_cells(self.emu()),
                emulator_columns(self.emu()),
                emulator_screen_lines(self.emu()),
                emulator_display_offset(self.emu()),
            )[row * emulator_columns(self.emu()) + col] {
                Some(v) => r matches Some(h) && link_view(h) == v,
                None => r is None,
            },
    {
        let snapshot = self.snapshot();
        if col < snapshot.cols && row < snapshot.rows {
            assert(0 <= row * snapshot.cols + col < snapshot.cols * snapshot.rows) by (nonlinear_arith)
                requires
                    col < snapshot.cols,
                    row < snapshot.rows,
            ;
        }
        match snapshot.hyperlink_at_cell(col, row) {
            Some(link) => Some(copy_link(link)),
            None => None,
        }
    }

    /// A render-safe copy of the visible grid: one cell per position, each
    /// displayed cell of the emulator at its viewport position (in order, a
    /// later one at the same position winning) and blank elsewhere, with its
    /// hyperlink by index in a table where each link occurs once; the image
    /// placements that reach into the viewport, in viewport rows; the
    /// selection's rectangles; and the cursor.
    pub fn snapshot(&self) -> (s: GridSnapshot)
        ensures
            s.wf(),
            s.cols == emulator_columns(self.emu()),
            s.rows == emulator_screen_lines(self.emu()),
            links_distinct(s.hyperlinks@),
            forall|i: int| 0 <= i < s.cells@.len() ==> without_link(#[trigger] s.cells@[i]) == placed_cells(
                emulator_displayed_cells(self.emu()), s.cols, s.rows, emulator_display_offset(self.emu()))[i],
            forall|i: int| 0 <= i < s.cells@.len() ==> link_shown(
                s.hyperlinks@,
                #[trigger] s.cells@[i],
                placed_links(emulator_displayed_cells(self.emu()), s.cols, s.rows, emulator_display_offset(self.emu()))[i],
            ),
            s.cursor == spec_snapshot_cursor(
                emulator_display_offset(self.emu()) > 0,
                emulator_cursor_shown(self.emu()),
                emulator_cursor(self.emu()).0,
                emulator_cursor(self.emu()).1,
                s.cols,
                s.rows,
            ),
            emulator_display_offset(self.emu()) <= isize::MAX
                && viewport_rows_fit(self.placements(), emulator_display_offset(self.emu()))
                ==> s.image_placements@ == spec_visible_placements(
                    self.placements(), emulator_display_offset(self.emu()), s.rows),
            s.selection_rects@ == spec_selection_rects(spec_geometry(self.emu()), spec_selection_range(self.emu(), self.selection_state())),
    {
        let (cols, rows) = self.emulator.size();
        let display_offset = self.emulator.display_offset();
        let total = cols * rows;
        let mut cells: Vec<Cell> = Vec::new();
        let mut n: usize = 0;
        while n < total
            invariant
                n <= total,
                cells@.len() == n,
                forall|i: int| 0 <= i < cells@.len() ==> #[trigger] cells@[i] == blank_cell(),
            decreases total - n,
        {
            cells.push(Cell::default());
            n += 1;
        }
        let displayed = self.emulator.displayed_cells();
        let ghost ds = displayed@;
        assert(ds.take(0) =~= Seq::<DisplayedCell>::empty());
        let mut hyperlinks: Vec<Hyperlink> = Vec::new();
        let mut i: usize = 0;
        while i < displayed.len()
            invariant
                i <= displayed@.len(),
                ds == displayed@,
                total == cols * rows,
                cells@.len() == total,
                hyperlinks@.len() <= i,
                links_distinct(hyperlinks@),
                forall|j: int| 0 <= j < cells@.len() ==> ((#[trigger] cells@[j]).hyperlink matches Some(k)
                    ==> k < hyperlinks@.len()),
                forall|j: int| 0 <= j < cells@.len() ==> without_link(#[trigger] cells@[j])
                    == placed_cells(ds.take(i as int), cols, rows, display_offset)[j],
                forall|j: int| 0 <= j < cells@.len() ==> link_shown(hyperlinks@, #[trigger] cells@[j],
                    placed_links(ds.take(i as int), cols, rows, display_offset)[j]),
            decreases displayed@.len() - i,
        {
            let shown: &DisplayedCell = &displayed[i];
            let mut cell = cell_from_raw(&shown.cell);
            let ghost links_before = hyperlinks@;
            match &shown.link {
                Some(parts) => {
                    let id = parts.0.as_str();
                    let uri = parts.1.as_str();
                    proof {
                        assert(spec_sanitize_hyperlink_id(id) == spec_id_view(parts.0@));
                    }
                    match hyperlink_from_parts(id, uri) {
                        Some(link) => {
                            let index = intern_hyperlink(&mut hyperlinks, link);
                            proof {
                                crate::term::viewport::lemma_interning_keeps_links_distinct(links_before, link);
                            }
                            cell.hyperlink = Some(index);
                        },
                        None => {},
                    }
                },
                None => {},
            }
            assert(cell.hyperlink matches Some(k) ==> k < hyperlinks@.len());
            assert(link_shown(hyperlinks@, cell, displayed_link(*shown)));
            assert(forall|k: int| 0 <= k < links_before.len() ==> #[trigger] hyperlinks@[k] == links_before[k]);
            assert(ds.take(i + 1).drop_last() =~= ds.take(i as int));
            assert(ds.take(i + 1).last() == *shown);
            let ghost before_cells = cells@;
            place_visible_cell(&mut cells, cols, rows, display_offset, shown.line, shown.column, cell);
            proof {
                if let Some(w) = crate::term::viewport::viewport_index(cols, rows, display_offset, shown.line, shown.column) {
                    let y = shown.line + display_offset;
                    assert(0 <= y * cols + shown.column < cols * rows) by (nonlinear_arith)
                        requires
                            0 <= y < rows,
                            shown.column < cols,
                    ;
                }
            }
            let ghost pc = placed_cells(ds.take(i as int), cols, rows, display_offset);
            let ghost pl = placed_links(ds.take(i as int), cols, rows, display_offset);
            let ghost pc2 = placed_cells(ds.take(i + 1), cols, rows, display_offset);
            let ghost pl2 = placed_links(ds.take(i + 1), cols, rows, display_offset);
            proof {
                lemma_placed_lengths(ds.take(i as int), cols, rows, display_offset);
                assert(without_link(cell) == spec_cell_from_raw(shown.cell));
                match viewport_index(cols, rows, display_offset, shown.line, shown.column) {
                    Some(w) => {
                        assert(pc2 == pc.update(w, spec_cell_from_raw(shown.cell)));
                        assert(pl2 == pl.update(w, displayed_link(*shown)));
                    },
                    None => {
                        assert(pc2 == pc);
                        assert(pl2 == pl);
                    },
                }
            }
            assert forall|j: int| 0 <= j < cells@.len() implies ((#[trigger] cells@[j]).hyperlink matches Some(k)
                ==> k < hyperlinks@.len()) && without_link(cells@[j]) == pc2[j]
                && link_shown(hyperlinks@, cells@[j], pl2[j]) by {
                assert(link_shown(links_before, before_cells[j], pl[j]));
                assert(without_link(before_cells[j]) == pc[j]);
                match viewport_index(cols, rows, display_offset, shown.line, shown.column) {
                    Some(w) => {
                        let y = shown.line + display_offset;
                        assert(0 <= y < rows && shown.column < cols && w == y * cols + shown.column);
                        assert(0 <= y * cols + shown.column < cols * rows) by (nonlinear_arith)
                            requires
                                0 <= y < rows,
                                shown.column < cols,
                        ;
                        assert(cells@ == before_cells.update(w, cell));
                        if j == w {
                            assert(cells@[j] == cell);
                            assert(pc2[j] == spec_cell_from_raw(shown.cell));
                            assert(pl2[j] == displayed_link(*shown));
                        } else {
                            assert(cells@[j] == before_cells[j]);
                            assert(pc2[j] == pc[j]);
                            assert(pl2[j] == pl[j]);
                            if let Some(k) = before_cells[j].hyperlink {
                                assert(hyperlinks@[k as int] == links_before[k as int]);
                            }
                        }
                    },
                    None => {
                        assert(cells@[j] == before_cells[j]);
                        if let Some(k) = before_cells[j].hyperlink {
                            assert(hyperlinks@[k as int] == links_before[k as int]);
                        }
                    },
                }
            }
            i += 1;
        }
        assert(ds.take(ds.len() as int) =~= ds);
        let (cursor_column, cursor_line) = self.emulator.cursor_point();
        let cursor = snapshot_cursor(
            display_offset > 0,
            self.emulator.cursor_shown(),
            cursor_column,
            cursor_line,
            cols,
            rows,
        );
        let placements = self.image_placements.as_slice();
        let image_placements = if display_offset <= isize::MAX as usize && rows_fit(placements, display_offset) {
            visible_placements(placements, display_offset, rows)
        } else {
            Vec::new()
        };
        GridSnapshot {
            cols,
            rows,
            cells,
            hyperlinks,
            selection_rects: self.selection_rects(),
            image_placements,
            cursor,
        }
    }

    /// The damage still to draw, which is then cleared, with the emulator's.
    pub fn take_damage(&mut self) -> (d: Damage)
        requires
            old(self).wf(),
        ensures
            final(self).wf(),
            d@ == old(self).damage_view(),
            final(self).damage_view() == DamageView::Clean,
            final(self).selection_state() == old(self).selection_state(),
            final(self).pending_input() == old(self).pending_input(),
            final(self).placements() == old(self).placements(),
            final(self).forwarded_bytes() == old(self).forwarded_bytes(),
            keeps_size(old(self).emu(), final(self).emu()),
    {
        let mut damage = Damage::Clean;
        std::mem::swap(&mut self.damage, &mut damage);
        self.emulator.reset_damage();
        damage
    }

    /// The replies the emulator queued for the PTY since the last call.
    pub fn take_pty_writes(&mut self) -> (r: Vec<String>)
        requires
            old(self).wf(),
        ensures
            final(self).wf(),
            r@ == emulator_pty_writes(old(self).emu()),
            emulator_pty_writes(final(self).emu()).len() == 0,
            final(self).selection_state() == old(self).selection_state(),
            final(self).pending_input() == old(self).pending_input(),
            final(self).placements() == old(self).placements(),
            final(self).damage_view() == old(self).damage_view(),
            final(self).forwarded_bytes() == old(self).forwarded_bytes(),
            keeps_size(old(self).emu(), final(self).emu()),
    {
        self.emulator.take_pty_writes()
    }
}

/// Whether every placement's bottom row, in a view scrolled back by
/// `display_offset` lines, fits an `isize`.
fn rows_fit(placements: &[ImagePlacement], display_offset: usize) -> (r: bool)
    ensures
        r == viewport_rows_fit(placements@, display_offset),
{
    let mut i: usize = 0;
    while i < placements.len()
        invariant
            i <= placements@.len(),
            forall|j: int| 0 <= j < i ==> #[trigger] placements@[j].anchor.row + display_offset + placements@[j].rows <= isize::MAX,
        decreases placements@.len() - i,
    {
        let p = placements[i];
        let row = p.anchor.row as i128;
        if row + display_offset as i128 + p.rows as i128 > isize::MAX as i128 {
            return false;
        }
        i += 1;
    }
    true
}

proof fn lemma_filter_keeps_fit(s: Seq<ImagePlacement>, keep: spec_fn(ImagePlacement) -> bool)
    requires
        bottoms_fit(s),
    ensures
        bottoms_fit(s.filter(keep)),
    decreases s.len(),
{
    reveal(Seq::filter);
    if s.len() > 0 {
        lemma_filter_keeps_fit(s.drop_last(), keep);
        let f = s.drop_last().filter(keep);
        assert(s[s.len() - 1].anchor.row + s[s.len() - 1].rows <= isize::MAX);
        if keep(s.last()) {
            assert forall|i: int| 0 <= i < f.push(s.last()).len() implies #[trigger] f.push(s.last())[i].anchor.row + f.push(s.last())[i].rows <= isize::MAX by {
                if i < f.len() {
                    assert(f.push(s.last())[i] == f[i]);
                }
            }
        }
    }
}

proof fn lemma_empty_after_output_scroll(s: Seq<ImagePlacement>, previous: usize, history: usize)
    requires
        s.len() == 0,
    ensures
        forall|shift: int, h: usize| spec_after_output_scroll(s, shift, h).len() == 0,
{
}

proof fn lemma_damage_kept_chain(a: DamageView, b: DamageView, c: DamageView)
    requires
        damage_kept(a, b),
        damage_kept(b, c),
    ensures
        damage_kept(a, c),
{
}

proof fn lemma_full_stays_full(a: DamageView, z: DamageView, b: DamageView, c: DamageView, d: DamageView)
    requires
        a == DamageView::Full,
        damage_kept(a, b),
        damage_kept(b, c),
        damage_kept(c, d),
        damage_kept(d, z),
    ensures
        z == DamageView::Full,
{
}

} // verus!
