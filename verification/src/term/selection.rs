//! Text selection over the terminal history: clamping points to the grid,
//! word and line expansion, hit testing and the rectangles drawn for a
//! selection in the viewport.
//!
//! Rows are logical: 0 is the top visible row when the view is at the
//! bottom, negative rows are in the scrollback.

use vstd::prelude::*;
use crate::term::grid::{
    spec_is_word_constituent, spec_selection_point_le, is_word_constituent, selection_point_le,
    usize_to_isize, SelectionMode, SelectionPoint, SelectionRange, SelectionRect, SelectionState,
};
use vstd::string::{StringExecFns, StrSliceExecFns};
use crate::text::{is_white_space, single_char_string, spec_is_white_space, trim_end};

verus! {

/// The shape of the terminal history that selection works over.
#[derive(Clone, Copy, Debug, Eq, PartialEq, Structural)]
pub struct SelectionGeometry {
    /// Columns of the grid.
    pub cols: usize,
    /// Visible rows.
    pub rows: usize,
    /// Rows of scrollback above the screen.
    pub history: usize,
    /// How many rows the view is scrolled back.
    pub display_offset: usize,
}

pub open spec fn isize_of(value: usize) -> int {
    if value <= isize::MAX { value as int } else { isize::MAX as int }
}

/// `point` moved onto the grid: its column to the last column at most,
/// its row between the oldest scrollback row and the last screen row.
/// Nothing for an empty grid.
pub open spec fn spec_clamp_point(g: SelectionGeometry, point: SelectionPoint) -> Option<SelectionPoint> {
    if g.cols == 0 || g.rows == 0 {
        None
    } else {
        let min_row = -isize_of(g.history);
        let max_row = isize_of(g.rows) - 1;
        Some(SelectionPoint {
            col: if point.col <= g.cols - 1 { point.col } else { (g.cols - 1) as usize },
            row: if point.row < min_row { min_row as isize } else if point.row > max_row { max_row as isize } else { point.row },
        })
    }
}

pub fn clamp_selection_point(g: SelectionGeometry, point: SelectionPoint) -> (r: Option<SelectionPoint>)
    ensures
        r == spec_clamp_point(g, point),
{
    if g.cols == 0 || g.rows == 0 {
        return None;
    }
    let min_row = -usize_to_isize(g.history);
    let max_row = usize_to_isize(g.rows) - 1;
    let col = if point.col <= g.cols - 1 { point.col } else { g.cols - 1 };
    let row = if point.row < min_row {
        min_row
    } else if point.row > max_row {
        max_row
    } else {
        point.row
    };
    Some(SelectionPoint { col, row })
}

/// The logical point of a visible cell, given how far the view is
/// scrolled back.
pub open spec fn spec_point_for_visible_cell(g: SelectionGeometry, col: usize, row: usize) -> Option<SelectionPoint> {
    if col >= g.cols || row >= g.rows {
        None
    } else {
        let logical = isize_of(row) - isize_of(g.display_offset);
        spec_clamp_point(g, SelectionPoint {
            col,
            row: if logical < isize::MIN { isize::MIN } else { logical as isize },
        })
    }
}

pub fn selection_point_for_visible_cell(g: SelectionGeometry, col: usize, row: usize) -> (r: Option<SelectionPoint>)
    ensures
        r == spec_point_for_visible_cell(g, col, row),
{
    if col >= g.cols || row >= g.rows {
        return None;
    }
    let point = SelectionPoint { col, row: usize_to_isize(row) - usize_to_isize(g.display_offset) };
    clamp_selection_point(g, point)
}

/// The first column of the run of word characters through `col`.
pub open spec fn word_start(line: Seq<char>, col: int) -> int
    decreases col,
{
    if col > 0 && col - 1 < line.len() && spec_is_word_constituent(line[col - 1]) {
        word_start(line, col - 1)
    } else {
        col
    }
}

/// The last column (at most `last`) of the run of word characters through
/// `col`.
pub open spec fn word_end(line: Seq<char>, col: int, last: int) -> int
    decreases last - col,
{
    if col < last && col + 1 < line.len() && spec_is_word_constituent(line[col + 1]) {
        word_end(line, col + 1, last)
    } else {
        col
    }
}

/// The word under `point` in the row `line` (the characters of the row
/// that `point` clamps to): nothing when the point is off the grid, its
/// row is beyond `i32` or the character there is not a word character.
pub open spec fn spec_word_range(g: SelectionGeometry, point: SelectionPoint, line: Seq<char>) -> Option<SelectionRange> {
    match spec_clamp_point(g, point) {
        None => None,
        Some(p) => if p.row < i32::MIN || p.row > i32::MAX || p.col >= line.len()
            || !spec_is_word_constituent(line[p.col as int]) {
            None
        } else {
            Some(SelectionRange {
                start: SelectionPoint { col: word_start(line, p.col as int) as usize, row: p.row },
                end: SelectionPoint { col: word_end(line, p.col as int, g.cols - 1) as usize, row: p.row },
            })
        },
    }
}

proof fn lemma_word_start_bounds(line: Seq<char>, col: int)
    requires
        0 <= col,
    ensures
        0 <= word_start(line, col) <= col,
    decreases col,
{
    if col > 0 && col - 1 < line.len() && spec_is_word_constituent(line[col - 1]) {
        lemma_word_start_bounds(line, col - 1);
    }
}

proof fn lemma_word_end_bounds(line: Seq<char>, col: int, last: int)
    requires
        col <= last,
    ensures
        col <= word_end(line, col, last) <= last,
    decreases last - col,
{
    if col < last && col + 1 < line.len() && spec_is_word_constituent(line[col + 1]) {
        lemma_word_end_bounds(line, col + 1, last);
    }
}

/// The word under a point; `line` holds the characters of the row the
/// point clamps to.
pub fn word_range_at(g: SelectionGeometry, point: SelectionPoint, line: &[char]) -> (r: Option<SelectionRange>)
    ensures
        r == spec_word_range(g, point, line@),
{
    let p = match clamp_selection_point(g, point) {
        Some(p) => p,
        None => return None,
    };
    if p.row < i32::MIN as isize || p.row > i32::MAX as isize || p.col >= line.len() || !is_word_constituent(line[p.col]) {
        return None;
    }
    let mut start_col = p.col;
    while start_col > 0 && start_col - 1 < line.len() && is_word_constituent(line[start_col - 1])
        invariant
            start_col <= p.col,
            word_start(line@, start_col as int) == word_start(line@, p.col as int),
        decreases start_col,
    {
        start_col -= 1;
    }
    let last_col = g.cols - 1;
    let mut end_col = p.col;
    while end_col < last_col && end_col + 1 < line.len() && is_word_constituent(line[end_col + 1])
        invariant
            p.col <= end_col <= last_col,
            last_col == g.cols - 1,
            word_end(line@, end_col as int, last_col as int) == word_end(line@, p.col as int, last_col as int),
        decreases last_col - end_col,
    {
        end_col += 1;
    }
    Some(SelectionRange {
        start: SelectionPoint { col: start_col, row: p.row },
        end: SelectionPoint { col: end_col, row: p.row },
    })
}

/// The range a selection covers: between its clamped ends in simple mode
/// (nothing while both ends coincide); from the start of the earlier word
/// to the end of the later one in word mode; whole rows in line mode.
/// `anchor_line` and `focus_line` are the rows the two ends clamp to.
pub open spec fn spec_effective_range(
    g: SelectionGeometry,
    selection: Option<SelectionState>,
    anchor_line: Seq<char>,
    focus_line: Seq<char>,
) -> Option<SelectionRange> {
    match selection {
        None => None,
        Some(s) => match s.mode {
            SelectionMode::Simple => match (spec_clamp_point(g, s.anchor), spec_clamp_point(g, s.focus)) {
                (Some(a), Some(f)) => if a == f {
                    None
                } else if spec_selection_point_le(a, f) {
                    Some(SelectionRange { start: a, end: f })
                } else {
                    Some(SelectionRange { start: f, end: a })
                },
                _ => None,
            },
            SelectionMode::Word => match (spec_word_range(g, s.anchor, anchor_line), spec_word_range(g, s.focus, focus_line)) {
                (Some(a), Some(f)) => {
                    let (x, y) = if spec_selection_point_le(a.start, f.start) { (a.start, f.end) } else { (f.start, a.end) };
                    if spec_selection_point_le(x, y) {
                        Some(SelectionRange { start: x, end: y })
                    } else {
                        Some(SelectionRange { start: y, end: x })
                    }
                },
                _ => None,
            },
            SelectionMode::Line => match (spec_clamp_point(g, s.anchor), spec_clamp_point(g, s.focus)) {
                (Some(a), Some(f)) => Some(SelectionRange {
                    start: SelectionPoint { col: 0, row: if a.row <= f.row { a.row } else { f.row } },
                    end: SelectionPoint { col: (g.cols - 1) as usize, row: if a.row >= f.row { a.row } else { f.row } },
                }),
                _ => None,
            },
        },
    }
}

pub fn effective_selection_range(
    g: SelectionGeometry,
    selection: Option<SelectionState>,
    anchor_line: &[char],
    focus_line: &[char],
) -> (r: Option<SelectionRange>)
    ensures
        r == spec_effective_range(g, selection, anchor_line@, focus_line@),
{
    let s = match selection {
        Some(s) => s,
        None => return None,
    };
    match s.mode {
        SelectionMode::Simple => {
            let a = match clamp_selection_point(g, s.anchor) {
                Some(a) => a,
                None => return None,
            };
            let f = match clamp_selection_point(g, s.focus) {
                Some(f) => f,
                None => return None,
            };
            if a == f {
                return None;
            }
            Some(SelectionRange::normalized(a, f))
        },
        SelectionMode::Word => {
            let a = match word_range_at(g, s.anchor, anchor_line) {
                Some(a) => a,
                None => return None,
            };
            let f = match word_range_at(g, s.focus, focus_line) {
                Some(f) => f,
                None => return None,
            };
            if selection_point_le(a.start, f.start) {
                Some(SelectionRange::normalized(a.start, f.end))
            } else {
                Some(SelectionRange::normalized(f.start, a.end))
            }
        },
        SelectionMode::Line => {
            let a = match clamp_selection_point(g, s.anchor) {
                Some(a) => a,
                None => return None,
            };
            let f = match clamp_selection_point(g, s.focus) {
                Some(f) => f,
                None => return None,
            };
            let start_row = if a.row <= f.row { a.row } else { f.row };
            let end_row = if a.row >= f.row { a.row } else { f.row };
            Some(SelectionRange {
                start: SelectionPoint { col: 0, row: start_row },
                end: SelectionPoint { col: g.cols - 1, row: end_row },
            })
        },
    }
}

/// Whether a point lies in the selected range (after clamping).
pub open spec fn spec_range_contains(g: SelectionGeometry, range: Option<SelectionRange>, point: SelectionPoint) -> bool {
    match (range, spec_clamp_point(g, point)) {
        (Some(r), Some(p)) => spec_selection_point_le(r.start, p) && spec_selection_point_le(p, r.end),
        _ => false,
    }
}

pub fn selection_contains_point(g: SelectionGeometry, range: Option<SelectionRange>, point: SelectionPoint) -> (r: bool)
    ensures
        r == spec_range_contains(g, range, point),
{
    let range = match range {
        Some(range) => range,
        None => return false,
    };
    let p = match clamp_selection_point(g, point) {
        Some(p) => p,
        None => return false,
    };
    selection_point_le(range.start, p) && selection_point_le(p, range.end)
}

/// The highlight of one logical row of a range, if it is visible: from the
/// range's start column on its first row (0 otherwise) to its end column on
/// its last row (the last column otherwise), cut at the grid's width.
pub open spec fn row_rect(g: SelectionGeometry, range: SelectionRange, row: int) -> Option<SelectionRect> {
    let visible = row + isize_of(g.display_offset);
    let visible = if visible > isize::MAX { isize::MAX as int } else { visible };
    let start_col: int = if row == range.start.row { range.start.col as int } else { 0 };
    let end_col: int = if row == range.end.row { range.end.col as int } else { if g.cols >= 1 { g.cols - 1 } else { 0 } };
    let end_col: int = if g.cols >= 1 && end_col > g.cols - 1 { g.cols - 1 } else { end_col };
    if visible < 0 || visible >= g.rows || g.cols == 0 || start_col >= g.cols || end_col < start_col {
        None
    } else {
        Some(SelectionRect { col: start_col as usize, row: visible as usize, width: (end_col - start_col + 1) as usize, height: 1 })
    }
}

/// The highlights of the range's rows before `row`, top to bottom.
pub open spec fn rects_before(g: SelectionGeometry, range: SelectionRange, row: int) -> Seq<SelectionRect>
    decreases row - range.start.row,
{
    if row <= range.start.row {
        Seq::empty()
    } else {
        rects_before(g, range, row - 1) + match row_rect(g, range, row - 1) {
            Some(rect) => seq![rect],
            None => Seq::empty(),
        }
    }
}

/// The visible highlights of a selection, one per row.
pub open spec fn spec_selection_rects(g: SelectionGeometry, range: Option<SelectionRange>) -> Seq<SelectionRect> {
    match range {
        None => Seq::empty(),
        Some(r) => rects_before(g, r, r.end.row + 1),
    }
}

fn row_rect_exec(g: SelectionGeometry, range: SelectionRange, row: isize) -> (r: Option<SelectionRect>)
    ensures
        r == row_rect(g, range, row as int),
{
    let offset = usize_to_isize(g.display_offset);
    let visible = if row > isize::MAX - offset { isize::MAX } else { row + offset };
    let start_col = if row == range.start.row { range.start.col } else { 0 };
    let end_col = if row == range.end.row { range.end.col } else { g.cols.saturating_sub(1) };
    let end_col = if g.cols >= 1 && end_col > g.cols - 1 { g.cols - 1 } else { end_col };
    if visible < 0 || visible as usize >= g.rows || g.cols == 0 || start_col >= g.cols || end_col < start_col {
        return None;
    }
    Some(SelectionRect { col: start_col, row: visible as usize, width: end_col - start_col + 1, height: 1 })
}

pub fn selection_rects(g: SelectionGeometry, range: Option<SelectionRange>) -> (r: Vec<SelectionRect>)
    ensures
        r@ == spec_selection_rects(g, range),
{
    let bounds = match range {
        Some(bounds) => bounds,
        None => return Vec::new(),
    };
    let mut rects: Vec<SelectionRect> = Vec::new();
    if bounds.start.row > bounds.end.row {
        return rects;
    }
    let mut row = bounds.start.row;
    loop
        invariant
            range == Some(bounds),
            bounds.start.row <= row <= bounds.end.row,
            rects@ == rects_before(g, bounds, row as int),
        decreases bounds.end.row - row,
    {
        match row_rect_exec(g, bounds, row) {
            Some(rect) => rects.push(rect),
            None => {},
        }
        assert(rects@ =~= rects_before(g, bounds, row + 1));
        if row == bounds.end.row {
            return rects;
        }
        row = row + 1;
    }
}

// ---------------------------------------------------------------------
// Laws.
// ---------------------------------------------------------------------

/// A clamped point lies on the grid: a valid column, and a row between the
/// oldest scrollback row and the last screen row.
pub proof fn lemma_clamped_point_on_grid(g: SelectionGeometry, point: SelectionPoint)
    ensures
        spec_clamp_point(g, point) matches Some(p) ==> {
            &&& p.col < g.cols
            &&& -isize_of(g.history) <= p.row < isize_of(g.rows)
        },
        spec_clamp_point(g, point) is None <==> (g.cols == 0 || g.rows == 0),
{
}

/// A word range covers the clamped point, on its row, and stays on the grid.
pub proof fn lemma_word_range_covers_point(g: SelectionGeometry, point: SelectionPoint, line: Seq<char>)
    ensures
        spec_word_range(g, point, line) matches Some(r) ==> {
            let p = spec_clamp_point(g, point)->0;
            &&& r.start.row == p.row && r.end.row == p.row
            &&& r.start.col <= p.col <= r.end.col < g.cols
        },
{
    if let Some(p) = spec_clamp_point(g, point) {
        if g.cols > 0 && p.col < line.len() {
            lemma_word_start_bounds(line, p.col as int);
            lemma_word_end_bounds(line, p.col as int, g.cols - 1);
        }
    }
}

/// An effective selection runs forward in reading order.
pub proof fn lemma_effective_range_is_ordered(
    g: SelectionGeometry,
    selection: Option<SelectionState>,
    anchor_line: Seq<char>,
    focus_line: Seq<char>,
)
    ensures
        spec_effective_range(g, selection, anchor_line, focus_line) matches Some(r) ==> spec_selection_point_le(r.start, r.end),
{
}

// ---------------------------------------------------------------------
// Starting, dragging and ending a selection.
// ---------------------------------------------------------------------

/// Starts a selection at `point` (clamped to the grid); a grid without
/// cells clears the selection instead. Returns whether the grid must be
/// drawn again.
pub fn begin_selection(
    selection: &mut Option<SelectionState>,
    g: SelectionGeometry,
    point: SelectionPoint,
    mode: SelectionMode,
) -> (redraw: bool)
    ensures
        match spec_clamp_point(g, point) {
            Some(p) => *final(selection) == Some(SelectionState { anchor: p, focus: p, mode, active: true }) && redraw,
            None => *final(selection) == None::<SelectionState> && redraw == (*old(selection) is Some),
        },
{
    match clamp_selection_point(g, point) {
        Some(p) => {
            *selection = Some(SelectionState { anchor: p, focus: p, mode, active: true });
            true
        },
        None => {
            let had = selection.is_some();
            *selection = None;
            had
        },
    }
}

/// Moves the selection's focus to `point` (clamped to the grid); nothing
/// happens without a selection or on a grid without cells.
pub fn update_selection(
    selection: &mut Option<SelectionState>,
    g: SelectionGeometry,
    point: SelectionPoint,
) -> (redraw: bool)
    ensures
        match (*old(selection), spec_clamp_point(g, point)) {
            (Some(s), Some(p)) => *final(selection) == Some(SelectionState { focus: p, ..s }) && redraw,
            _ => *final(selection) == *old(selection) && !redraw,
        },
{
    let p = match clamp_selection_point(g, point) {
        Some(p) => p,
        None => return false,
    };
    match *selection {
        Some(s) => {
            *selection = Some(SelectionState { focus: p, ..s });
            true
        },
        None => false,
    }
}

/// Marks the selection as no longer being dragged.
pub fn end_selection(selection: &mut Option<SelectionState>) -> (redraw: bool)
    ensures
        match *old(selection) {
            Some(s) => *final(selection) == Some(SelectionState { active: false, ..s }) && redraw == s.active,
            None => *final(selection) == None::<SelectionState> && !redraw,
        },
{
    match *selection {
        Some(s) => {
            *selection = Some(SelectionState { active: false, ..s });
            s.active
        },
        None => false,
    }
}

// ---------------------------------------------------------------------
// Selected text.
// ---------------------------------------------------------------------

/// A grid cell as selection copies it: its character, the zero-width
/// characters drawn over it, and whether it only holds the second half of a
/// wide character.
#[derive(Clone, Debug, Eq, PartialEq)]
pub struct TextCell {
    pub ch: char,
    pub zerowidth: Vec<char>,
    pub wide_spacer: bool,
}

/// The characters a cell contributes to copied text.
pub open spec fn cell_text(cell: TextCell) -> Seq<char> {
    if cell.wide_spacer { Seq::empty() } else { seq![cell.ch] + cell.zerowidth@ }
}

/// The text of cells `from..to` of `line`.
pub open spec fn cells_text(line: Seq<TextCell>, from: int, to: int) -> Seq<char>
    decreases to - from,
{
    if to <= from {
        Seq::empty()
    } else {
        cells_text(line, from, to - 1) + cell_text(line[to - 1])
    }
}

/// The text copied from columns `start_col..=end_col` of `line`: the end
/// is cut to the line, a start on the second half of a wide character
/// takes the whole character, and trailing white space is dropped.
pub open spec fn spec_line_selected_text(line: Seq<TextCell>, start_col: usize, end_col: usize) -> Seq<char> {
    let cols = line.len();
    if cols == 0 || start_col >= cols {
        Seq::empty()
    } else {
        let end = if end_col < cols - 1 { end_col as int } else { cols - 1 };
        if end < start_col {
            Seq::empty()
        } else {
            let start = if start_col > 0 && line[start_col as int].wide_spacer { start_col - 1 } else { start_col as int };
            trim_end(cells_text(line, start, end + 1))
        }
    }
}

fn push_char(out: &mut String, c: char)
    ensures
        final(out)@ == old(out)@.push(c),
{
    let piece = single_char_string(c);
    out.append(piece.as_str());
}

fn trimmed_end(text: String) -> (r: String)
    ensures
        r@ == trim_end(text@),
{
    let n = text.unicode_len();
    let mut keep = n;
    assert(text@.take(n as int) =~= text@);
    while keep > 0 && is_white_space(text.get_char(keep - 1))
        invariant
            keep <= n,
            n == text@.len(),
            trim_end(text@) == trim_end(text@.take(keep as int)),
        decreases keep,
    {
        assert(text@.take(keep as int).drop_last() =~= text@.take(keep - 1));
        keep -= 1;
    }
    proof {
        if keep > 0 {
            assert(text@.take(keep as int).last() == text@[keep - 1]);
        }
    }
    let mut out = String::new();
    out.append(text.as_str().substring_char(0, keep));
    assert(text@.subrange(0, keep as int) =~= text@.take(keep as int));
    out
}

/// The text copied from columns `start_col..=end_col` of `line`.
pub fn line_selected_text(line: &[TextCell], start_col: usize, end_col: usize) -> (r: String)
    ensures
        r@ == spec_line_selected_text(line@, start_col, end_col),
{
    let cols = line.len();
    if cols == 0 || start_col >= cols {
        return String::new();
    }
    let end = if end_col < cols - 1 { end_col } else { cols - 1 };
    if end < start_col {
        return String::new();
    }
    let start = if start_col > 0 && line[start_col].wide_spacer { start_col - 1 } else { start_col };
    let mut text = String::new();
    let mut col = start;
    while col <= end
        invariant
            start <= col <= end + 1,
            end < line@.len(),
            text@ == cells_text(line@, start as int, col as int),
        decreases end + 1 - col,
    {
        let cell = &line[col];
        if !cell.wide_spacer {
            push_char(&mut text, cell.ch);
            let mut k: usize = 0;
            while k < cell.zerowidth.len()
                invariant
                    k <= cell.zerowidth@.len(),
                    text@ == cells_text(line@, start as int, col as int) + seq![cell.ch] + cell.zerowidth@.take(k as int),
                decreases cell.zerowidth@.len() - k,
            {
                push_char(&mut text, cell.zerowidth[k]);
                assert(cell.zerowidth@.take(k + 1) =~= cell.zerowidth@.take(k as int).push(cell.zerowidth@[k as int]));
                k += 1;
            }
            assert(cell.zerowidth@.take(k as int) =~= cell.zerowidth@);
        }
        assert(cells_text(line@, start as int, col + 1) =~= cells_text(line@, start as int, col as int) + cell_text(line@[col as int]));
        col += 1;
    }
    trimmed_end(text)
}

/// The lines of a selection joined by newlines.
pub open spec fn joined_lines(lines: Seq<Seq<char>>) -> Seq<char>
    decreases lines.len(),
{
    if lines.len() == 0 {
        Seq::empty()
    } else if lines.len() == 1 {
        lines[0]
    } else {
        joined_lines(lines.drop_last()) + seq!['\n'] + lines.last()
    }
}

/// The copied text of a selection made of `lines`, or nothing when it is
/// empty.
pub fn selection_text(lines: &[String]) -> (r: Option<String>)
    ensures
        ({
            let joined = joined_lines(lines@.map_values(|l: String| l@));
            match r {
                Some(text) => text@ == joined && joined.len() > 0,
                None => joined.len() == 0,
            }
        }),
{
    let ghost views = lines@.map_values(|l: String| l@);
    let mut text = String::new();
    let mut i: usize = 0;
    while i < lines.len()
        invariant
            i <= lines@.len(),
            views == lines@.map_values(|l: String| l@),
            text@ == joined_lines(views.take(i as int)),
        decreases lines@.len() - i,
    {
        assert(views.take(i + 1).drop_last() =~= views.take(i as int));
        assert(views.take(i + 1).last() == lines@[i as int]@);
        if i > 0 {
            push_char(&mut text, '\n');
        }
        text.append(lines[i].as_str());
        i += 1;
    }
    assert(views.take(lines@.len() as int) =~= views);
    if text.unicode_len() == 0 {
        None
    } else {
        Some(text)
    }
}

/// Copied line text never ends in white space, and it is the beginning of
/// the text of the cells it was copied from.
pub proof fn lemma_copied_line_is_trimmed_prefix(line: Seq<TextCell>, start_col: usize, end_col: usize)
    ensures
        ({
            let copied = spec_line_selected_text(line, start_col, end_col);
            &&& copied.len() > 0 ==> !spec_is_white_space(copied.last())
            &&& line.len() > 0 && start_col < line.len() ==> {
                let end = if end_col < line.len() - 1 { end_col as int } else { line.len() - 1 };
                let start = if start_col > 0 && line[start_col as int].wide_spacer { start_col - 1 } else { start_col as int };
                end >= start_col ==> cells_text(line, start, end + 1).take(copied.len() as int) == copied
            }
        }),
{
    if line.len() > 0 && start_col < line.len() {
        let end = if end_col < line.len() - 1 { end_col as int } else { line.len() - 1 };
        let start = if start_col > 0 && line[start_col as int].wide_spacer { start_col - 1 } else { start_col as int };
        if end >= start_col {
            lemma_trim_end_is_prefix(cells_text(line, start, end + 1));
        }
    }
}

proof fn lemma_trim_end_is_prefix(s: Seq<char>)
    ensures
        trim_end(s).len() <= s.len(),
        s.take(trim_end(s).len() as int) == trim_end(s),
        trim_end(s).len() > 0 ==> !spec_is_white_space(trim_end(s).last()),
    decreases s.len(),
{
    if s.len() > 0 && spec_is_white_space(s.last()) {
        lemma_trim_end_is_prefix(s.drop_last());
        let t = trim_end(s.drop_last());
        assert(s.take(t.len() as int) =~= s.drop_last().take(t.len() as int));
    } else {
        assert(s.take(s.len() as int) =~= s);
    }
}

/// A character that words are made of, by its code point: an ASCII
/// letter or digit, or one of `_ . / : -`.
pub open spec fn ascii_word_char(ch: char) -> bool {
    let c = ch as u32;
    ||| 0x30 <= c <= 0x39
    ||| 0x41 <= c <= 0x5a
    ||| 0x61 <= c <= 0x7a
    ||| c == 0x5f || c == 0x2e || c == 0x2f || c == 0x3a || c == 0x2d
}

/// Word characters are exactly the ASCII letters and digits and `_ . / : -`.
pub proof fn lemma_word_characters(ch: char)
    ensures
        spec_is_word_constituent(ch) <==> ascii_word_char(ch),
{
}

proof fn lemma_word_start_run(line: Seq<char>, col: int)
    requires
        0 <= col,
    ensures
        forall|k: int| word_start(line, col) <= k < col ==> k < line.len() && spec_is_word_constituent(#[trigger] line[k]),
        word_start(line, col) == 0 || word_start(line, col) - 1 >= line.len()
            || !spec_is_word_constituent(line[word_start(line, col) - 1]),
    decreases col,
{
    if col > 0 && col - 1 < line.len() && spec_is_word_constituent(line[col - 1]) {
        lemma_word_start_run(line, col - 1);
        assert forall|k: int| word_start(line, col) <= k < col implies k < line.len() && spec_is_word_constituent(#[trigger] line[k]) by {
            if k < col - 1 {
                assert(word_start(line, col - 1) <= k < col - 1);
            }
        }
    }
}

proof fn lemma_word_end_covers(line: Seq<char>, col: int, last: int, k: int)
    requires
        col <= last,
        col < k <= word_end(line, col, last),
    ensures
        k < line.len(),
        spec_is_word_constituent(line[k]),
    decreases last - col,
{
    if col < last && col + 1 < line.len() && spec_is_word_constituent(line[col + 1]) {
        if k > col + 1 {
            lemma_word_end_covers(line, col + 1, last, k);
        }
    }
}

proof fn lemma_word_end_stops(line: Seq<char>, col: int, last: int)
    requires
        col <= last,
    ensures
        word_end(line, col, last) == last || word_end(line, col, last) + 1 >= line.len()
            || !spec_is_word_constituent(line[word_end(line, col, last) + 1]),
    decreases last - col,
{
    if col < last && col + 1 < line.len() && spec_is_word_constituent(line[col + 1]) {
        lemma_word_end_stops(line, col + 1, last);
    }
}

/// A word selection covers the whole run of word characters around the
/// point: every column `k` from its start to its end holds an ASCII letter
/// or digit or one of `_ . / : -`, and the run stops at the row's ends or at
/// a character that is none of these.
pub proof fn lemma_word_range_is_the_maximal_run(g: SelectionGeometry, point: SelectionPoint, line: Seq<char>, k: int)
    ensures
        spec_word_range(g, point, line) is Some ==> {
            let r = spec_word_range(g, point, line)->0;
            &&& r.start.col <= k <= r.end.col ==> k < line.len() && ascii_word_char(line[k])
            &&& r.start.col == 0 || !ascii_word_char(line[r.start.col - 1])
            &&& r.end.col == g.cols - 1 || r.end.col + 1 >= line.len() || !ascii_word_char(line[r.end.col + 1])
        },
{
    if let Some(r) = spec_word_range(g, point, line) {
        let p = spec_clamp_point(g, point)->0;
        let last = g.cols - 1;
        lemma_word_start_bounds(line, p.col as int);
        lemma_word_end_bounds(line, p.col as int, last);
        lemma_word_start_run(line, p.col as int);
        lemma_word_end_stops(line, p.col as int, last);
        let start = word_start(line, p.col as int);
        let end = word_end(line, p.col as int, last);
        assert(r.start.col == start && r.end.col == end);
        if start <= k <= end {
            if k < p.col {
                assert(start <= k < p.col);
                assert(k < line.len() && spec_is_word_constituent(line[k]));
            } else if k > p.col {
                lemma_word_end_covers(line, p.col as int, last, k);
            }
            lemma_word_characters(line[k]);
        }
        if start > 0 {
            lemma_word_characters(line[start - 1]);
        }
        if end != last && end + 1 < line.len() {
            lemma_word_characters(line[end + 1]);
        }
    }
}

} // verus!
