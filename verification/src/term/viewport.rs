//! What a snapshot of the visible grid is assembled from: the image
//! placements that reach into the viewport, each distinct hyperlink kept
//! once, the cells of the visible lines, and the cursor.

use vstd::prelude::*;
use crate::term::grid::{Cell, Cursor, GridPoint, Hyperlink, ImagePlacement};
use crate::text::same_chars;

verus! {

broadcast use vstd::seq_lib::group_seq_properties;

// ---------------------------------------------------------------------
// Image placements in the viewport.
// ---------------------------------------------------------------------

/// Row of `p`'s top in the viewport when the view is scrolled back by
/// `display_offset` lines.
pub open spec fn viewport_row(p: ImagePlacement, display_offset: usize) -> int {
    p.anchor.row + display_offset
}

/// `p` covers at least one of the `rows` viewport rows.
pub open spec fn shown_in_viewport(p: ImagePlacement, display_offset: usize, rows: usize) -> bool {
    let top = viewport_row(p, display_offset);
    !(top + p.rows <= 0 || top >= rows)
}

/// `p` anchored at its viewport row.
pub open spec fn in_viewport_coordinates(p: ImagePlacement, display_offset: usize) -> ImagePlacement {
    ImagePlacement {
        anchor: GridPoint { col: p.anchor.col, row: viewport_row(p, display_offset) as isize },
        ..p
    }
}

/// The placements of `s` shown in the viewport, in viewport coordinates,
/// in order.
pub open spec fn spec_visible_placements(s: Seq<ImagePlacement>, display_offset: usize, rows: usize) -> Seq<ImagePlacement>
    decreases s.len(),
{
    if s.len() == 0 {
        s
    } else {
        let rest = spec_visible_placements(s.drop_last(), display_offset, rows);
        if shown_in_viewport(s.last(), display_offset, rows) {
            rest.push(in_viewport_coordinates(s.last(), display_offset))
        } else {
            rest
        }
    }
}

/// Every placement's bottom row, scrolled by `display_offset`, fits an
/// `isize`.
pub open spec fn viewport_rows_fit(s: Seq<ImagePlacement>, display_offset: usize) -> bool {
    forall|i: int| 0 <= i < s.len() ==> #[trigger] s[i].anchor.row + display_offset + s[i].rows <= isize::MAX
}

/// The placements that reach into a viewport of `rows` rows scrolled back
/// by `display_offset` lines, anchored at viewport rows.
pub fn visible_placements(placements: &[ImagePlacement], display_offset: usize, rows: usize) -> (r: Vec<ImagePlacement>)
    requires
        display_offset <= isize::MAX,
        viewport_rows_fit(placements@, display_offset),
    ensures
        r@ == spec_visible_placements(placements@, display_offset, rows),
{
    let offset = display_offset as isize;
    let mut out: Vec<ImagePlacement> = Vec::new();
    let mut i: usize = 0;
    while i < placements.len()
        invariant
            i <= placements@.len(),
            offset == display_offset,
            display_offset <= isize::MAX,
            viewport_rows_fit(placements@, display_offset),
            out@ == spec_visible_placements(placements@.take(i as int), display_offset, rows),
        decreases placements@.len() - i,
    {
        let p = placements[i];
        assert(placements@.take(i + 1).drop_last() =~= placements@.take(i as int));
        assert(p.anchor.row + display_offset + p.rows <= isize::MAX);
        let top = p.anchor.row + offset;
        let bottom = top + p.rows as isize;
        let hidden = bottom <= 0 || (top >= 0 && top as usize >= rows);
        if !hidden {
            out.push(ImagePlacement { anchor: GridPoint { col: p.anchor.col, row: top }, ..p });
        }
        i += 1;
    }
    assert(placements@.take(placements@.len() as int) =~= placements@);
    out
}

// ---------------------------------------------------------------------
// Hyperlinks.
// ---------------------------------------------------------------------

/// A hyperlink as text: its id, if any, and its URI.
pub open spec fn link_view(link: Hyperlink) -> (Option<Seq<char>>, Seq<char>) {
    (
        match link.id {
            Some(id) => Some(id@),
            None => None,
        },
        link.uri@,
    )
}

/// The first position of a link equal to `link`.
pub open spec fn link_index(links: Seq<Hyperlink>, link: Hyperlink) -> Option<int> {
    if exists|i: int| 0 <= i < links.len() && link_view(links[i]) == link_view(link) {
        Some(choose|i: int|
            0 <= i < links.len() && link_view(links[i]) == link_view(link) && forall|j: int|
                0 <= j < i ==> link_view(#[trigger] links[j]) != link_view(link))
    } else {
        None
    }
}

/// No link occurs twice.
pub open spec fn links_distinct(links: Seq<Hyperlink>) -> bool {
    forall|i: int, j: int| 0 <= i < j < links.len() ==> link_view(#[trigger] links[i]) != link_view(#[trigger] links[j])
}

/// Whether two links have the same id and URI.
pub fn same_link(a: &Hyperlink, b: &Hyperlink) -> (r: bool)
    ensures
        r == (link_view(*a) == link_view(*b)),
{
    if !same_chars(a.uri.as_str(), b.uri.as_str()) {
        return false;
    }
    match (&a.id, &b.id) {
        (Some(x), Some(y)) => same_chars(x.as_str(), y.as_str()),
        (None, None) => true,
        _ => false,
    }
}

/// The index of `link` in the snapshot's hyperlink table, adding it at the
/// end when it is not there yet.
pub fn intern_hyperlink(links: &mut Vec<Hyperlink>, link: Hyperlink) -> (index: usize)
    requires
        old(links)@.len() < usize::MAX,
    ensures
        match link_index(old(links)@, link) {
            Some(i) => index == i && final(links)@ == old(links)@,
            None => index == old(links)@.len() && final(links)@ == old(links)@.push(link),
        },
{
    let mut i: usize = 0;
    while i < links.len()
        invariant
            i <= links@.len(),
            forall|j: int| 0 <= j < i ==> link_view(#[trigger] links@[j]) != link_view(link),
        decreases links@.len() - i,
    {
        if same_link(&links[i], &link) {
            proof {
                let w = choose|w: int|
                    0 <= w < links@.len() && link_view(links@[w]) == link_view(link) && forall|j: int|
                        0 <= j < w ==> link_view(#[trigger] links@[j]) != link_view(link);
                assert(w == i as int) by {
                    if w < i {
                    } else if w > i {
                        assert(link_view(links@[i as int]) != link_view(link));
                    }
                }
            }
            return i;
        }
        i += 1;
    }
    let index = links.len();
    links.push(link);
    index
}

// ---------------------------------------------------------------------
// Cells and cursor.
// ---------------------------------------------------------------------

/// Where a cell of grid line `line`, column `column`, lands in a viewport
/// of `cols` x `rows` cells scrolled back by `display_offset` lines.
pub open spec fn viewport_index(cols: usize, rows: usize, display_offset: usize, line: i32, column: usize) -> Option<int> {
    let y = line + display_offset;
    if y < 0 || column >= cols || y >= rows {
        None
    } else {
        Some(y * cols + column)
    }
}

/// Puts `cell` at its place in the snapshot's cells, row by row; a cell
/// outside the viewport is dropped.
pub fn place_visible_cell(
    cells: &mut Vec<Cell>,
    cols: usize,
    rows: usize,
    display_offset: usize,
    line: i32,
    column: usize,
    cell: Cell,
)
    requires
        old(cells)@.len() == cols * rows,
    ensures
        final(cells)@ == match viewport_index(cols, rows, display_offset, line, column) {
            Some(k) => old(cells)@.update(k, cell),
            None => old(cells)@,
        },
{
    if column >= cols {
        return;
    }
    if line < 0 && (-(line as i64)) as u64 > display_offset as u64 {
        return;
    }
    let y: usize = if line < 0 {
        display_offset - ((-(line as i64)) as usize)
    } else {
        if display_offset >= rows || line as usize >= rows - display_offset {
            return;
        }
        line as usize + display_offset
    };
    if y >= rows {
        return;
    }
    assert(y * cols + column < cols * rows) by (nonlinear_arith)
        requires
            y < rows,
            column < cols,
    ;
    let len = cells.len();
    assert(y * cols + column < len);
    let index = y * cols + column;
    cells.set(index, cell);
}

/// The cursor of a snapshot: at grid column `column` and screen line
/// `line` (a line above the screen is reported at row `rows`), shown only
/// when the view is not scrolled back, the application shows it, and it is
/// inside the grid.
pub open spec fn spec_snapshot_cursor(
    scrolled_back: bool,
    shows_cursor: bool,
    column: usize,
    line: i32,
    cols: usize,
    rows: usize,
) -> Cursor {
    let y: usize = if line >= 0 { line as usize } else { rows };
    Cursor { x: column, y, visible: !scrolled_back && shows_cursor && column < cols && y < rows }
}

pub fn snapshot_cursor(
    scrolled_back: bool,
    shows_cursor: bool,
    column: usize,
    line: i32,
    cols: usize,
    rows: usize,
) -> (c: Cursor)
    ensures
        c == spec_snapshot_cursor(scrolled_back, shows_cursor, column, line, cols, rows),
{
    let y: usize = if line >= 0 { line as usize } else { rows };
    Cursor { x: column, y, visible: !scrolled_back && shows_cursor && column < cols && y < rows }
}

// ---------------------------------------------------------------------
// Laws.
// ---------------------------------------------------------------------

/// Every placement in a snapshot covers part of the viewport, and is a
/// placement of the terminal moved to viewport coordinates.
pub proof fn lemma_visible_placements_cover_the_viewport(s: Seq<ImagePlacement>, display_offset: usize, rows: usize)
    requires
        viewport_rows_fit(s, display_offset),
    ensures
        spec_visible_placements(s, display_offset, rows).len() <= s.len(),
        forall|j: int| 0 <= j < spec_visible_placements(s, display_offset, rows).len() ==> {
            let q = #[trigger] spec_visible_placements(s, display_offset, rows)[j];
            &&& q.anchor.row < rows
            &&& q.anchor.row + q.rows > 0
            &&& exists|i: int| 0 <= i < s.len() && q == in_viewport_coordinates(s[i], display_offset)
        },
    decreases s.len(),
{
    if s.len() > 0 {
        let rest = s.drop_last();
        assert(viewport_rows_fit(rest, display_offset)) by {
            assert forall|i: int| 0 <= i < rest.len() implies #[trigger] rest[i].anchor.row + display_offset + rest[i].rows <= isize::MAX by {
                assert(rest[i] == s[i]);
            }
        }
        lemma_visible_placements_cover_the_viewport(rest, display_offset, rows);
        let out = spec_visible_placements(s, display_offset, rows);
        assert forall|j: int| 0 <= j < out.len() implies {
            let q = #[trigger] out[j];
            &&& q.anchor.row < rows
            &&& q.anchor.row + q.rows > 0
            &&& exists|i: int| 0 <= i < s.len() && q == in_viewport_coordinates(s[i], display_offset)
        } by {
            let prev = spec_visible_placements(rest, display_offset, rows);
            if j < prev.len() {
                let q = prev[j];
                let i = choose|i: int| 0 <= i < rest.len() && q == in_viewport_coordinates(rest[i], display_offset);
                assert(s[i] == rest[i]);
            } else {
                let last = s[s.len() - 1];
                assert(last == s.last());
                assert(last.anchor.row + display_offset + last.rows <= isize::MAX);
            }
        }
    }
}

/// Interning keeps the hyperlink table free of duplicates, and the index
/// it gives names a link equal to the one interned.
pub proof fn lemma_interning_keeps_links_distinct(links: Seq<Hyperlink>, link: Hyperlink)
    requires
        links_distinct(links),
    ensures
        match link_index(links, link) {
            Some(i) => 0 <= i < links.len() && link_view(links[i]) == link_view(link),
            None => links_distinct(links.push(link)) && link_view(links.push(link)[links.len() as int]) == link_view(link),
        },
{
    match link_index(links, link) {
        Some(i) => {},
        None => {
            let grown = links.push(link);
            assert forall|i: int, j: int| 0 <= i < j < grown.len() implies link_view(#[trigger] grown[i]) != link_view(#[trigger] grown[j]) by {
                if j == links.len() {
                    assert(grown[i] == links[i]);
                    assert(!(0 <= i < links.len() && link_view(links[i]) == link_view(link)));
                } else {
                    assert(grown[i] == links[i]);
                    assert(grown[j] == links[j]);
                }
            }
        },
    }
}

} // verus!
