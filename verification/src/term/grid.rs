//! Render-safe grid snapshots, selections, image placements and damage.

use vstd::prelude::*;

verus! {

/// Selection endpoint in terminal logical coordinates.
#[derive(Debug, Clone, Copy, PartialEq, Eq, Structural)]
pub struct SelectionPoint {
    pub col: usize,
    pub row: isize,
}

/// Selection expansion mode.
#[derive(Debug, Clone, Copy, PartialEq, Eq, Structural)]
pub enum SelectionMode {
    Simple,
    Word,
    Line,
}

/// Current terminal text selection.
#[derive(Debug, Clone, Copy, PartialEq, Eq, Structural)]
pub struct SelectionState {
    pub anchor: SelectionPoint,
    pub focus: SelectionPoint,
    pub mode: SelectionMode,
    pub active: bool,
}

/// Visible selected range in viewport cell coordinates.
#[derive(Debug, Clone, Copy, PartialEq, Eq, Structural)]
pub struct SelectionRect {
    pub col: usize,
    pub row: usize,
    pub width: usize,
    pub height: usize,
}

/// Stable identifier for an image resource owned outside the terminal core.
#[derive(Clone, Copy, Debug, Eq, Hash, Ord, PartialEq, PartialOrd, Structural)]
pub struct ImageId(u64);

impl ImageId {
    pub closed spec fn spec_value(self) -> u64 {
        self.0
    }

    /// The id that wraps `value`.
    pub closed spec fn spec_new(value: u64) -> Self {
        ImageId(value)
    }

    pub broadcast proof fn lemma_spec_new_value(value: u64)
        ensures
            #[trigger] Self::spec_new(value).spec_value() == value,
    {
    }

    pub fn new(value: u64) -> (id: Self)
        ensures
            id.spec_value() == value,
            id == Self::spec_new(value),
    {
        ImageId(value)
    }

    /// The number this id wraps.
    pub fn value(&self) -> (r: u64)
        ensures
            r == self.spec_value(),
    {
        self.0
    }
}

/// Stable identifier for one logical placement of an image resource.
#[derive(Clone, Copy, Debug, Eq, Hash, Ord, PartialEq, PartialOrd, Structural)]
pub struct ImagePlacementId(u64);

impl ImagePlacementId {
    pub closed spec fn spec_value(self) -> u64 {
        self.0
    }

    /// The id that wraps `value`.
    pub closed spec fn spec_new(value: u64) -> Self {
        ImagePlacementId(value)
    }

    pub broadcast proof fn lemma_spec_new_value(value: u64)
        ensures
            #[trigger] Self::spec_new(value).spec_value() == value,
    {
    }

    pub fn new(value: u64) -> (id: Self)
        ensures
            id.spec_value() == value,
            id == Self::spec_new(value),
    {
        ImagePlacementId(value)
    }

    /// The number this id wraps.
    pub fn value(&self) -> (r: u64)
        ensures
            r == self.spec_value(),
    {
        self.0
    }
}

/// Terminal-grid position. Rows may be negative while an image is in scrollback.
#[derive(Clone, Copy, Debug, Eq, PartialEq, Structural)]
pub struct GridPoint {
    pub col: usize,
    pub row: isize,
}

/// Rectangle of source pixels that a placement shows.
#[derive(Clone, Copy, Debug, Eq, PartialEq, Structural)]
pub struct ImageSourceRect {
    pub x: u32,
    pub y: u32,
    pub width: u32,
    pub height: u32,
}

/// Pixel offset of an image inside its anchor cell.
#[derive(Clone, Copy, Debug, Eq, PartialEq, Structural)]
pub struct ImagePixelOffset {
    pub x: u16,
    pub y: u16,
}

impl Default for ImagePixelOffset {
    fn default() -> (o: Self)
        ensures
            o == (ImagePixelOffset { x: 0, y: 0 }),
    {
        ImagePixelOffset { x: 0, y: 0 }
    }
}

/// Stacking order of an image relative to text and other images.
#[derive(Clone, Copy, Debug, Eq, PartialEq, Structural)]
pub struct ImageZIndex(pub i32);

impl Default for ImageZIndex {
    fn default() -> (z: Self)
        ensures
            z == ImageZIndex(0),
    {
        ImageZIndex(0)
    }
}

/// Logical cell placement for one externally-owned image.
#[derive(Clone, Copy, Debug, Eq, PartialEq, Structural)]
pub struct ImagePlacement {
    pub placement_id: ImagePlacementId,
    pub image_id: ImageId,
    pub kitty_image_id: Option<u32>,
    pub anchor: GridPoint,
    pub columns: u16,
    pub rows: u16,
    pub source_width: u32,
    pub source_height: u32,
    pub source_rect: ImageSourceRect,
    pub pixel_offset: ImagePixelOffset,
    pub z_index: ImageZIndex,
}

/// Hyperlink metadata associated with terminal cells.
#[derive(Clone, Debug, Eq, Hash, PartialEq)]
pub struct Hyperlink {
    pub id: Option<String>,
    pub uri: String,
}

/// Visible cursor state in grid coordinates.
#[derive(Clone, Copy, Debug, Eq, PartialEq, Structural)]
pub struct Cursor {
    pub x: usize,
    pub y: usize,
    pub visible: bool,
}

impl Default for Cursor {
    fn default() -> (c: Self)
        ensures
            c == (Cursor { x: 0, y: 0, visible: false }),
    {
        Cursor { x: 0, y: 0, visible: false }
    }
}

/// Render-safe terminal color.
#[derive(Clone, Copy, Debug, Eq, PartialEq, Structural)]
pub enum Color {
    DefaultFg,
    DefaultBg,
    Indexed(u8),
    Rgb(u8, u8, u8),
}

/// Basic cell style flags.
#[derive(Clone, Copy, Debug, Eq, PartialEq, Structural)]
pub struct CellFlags {
    pub bold: bool,
    pub italic: bool,
    pub underline: bool,
    pub inverse: bool,
    pub wide: bool,
    pub wide_spacer: bool,
}

impl Default for CellFlags {
    fn default() -> (f: Self)
        ensures
            f == (CellFlags { bold: false, italic: false, underline: false, inverse: false, wide: false, wide_spacer: false }),
    {
        CellFlags { bold: false, italic: false, underline: false, inverse: false, wide: false, wide_spacer: false }
    }
}

/// Render-safe terminal cell.
#[derive(Clone, Copy, Debug, Eq, PartialEq, Structural)]
pub struct Cell {
    pub ch: char,
    pub fg: Color,
    pub bg: Color,
    pub flags: CellFlags,
    pub hyperlink: Option<usize>,
}

impl Default for Cell {
    fn default() -> (c: Self)
        ensures
            c == (Cell {
                ch: ' ',
                fg: Color::DefaultFg,
                bg: Color::DefaultBg,
                flags: CellFlags { bold: false, italic: false, underline: false, inverse: false, wide: false, wide_spacer: false },
                hyperlink: None,
            }),
    {
        Cell { ch: ' ', fg: Color::DefaultFg, bg: Color::DefaultBg, flags: CellFlags::default(), hyperlink: None }
    }
}

/// Render-safe visible terminal grid snapshot.
#[derive(Clone, Debug, Eq, PartialEq)]
pub struct GridSnapshot {
    pub cols: usize,
    pub rows: usize,
    pub cells: Vec<Cell>,
    pub hyperlinks: Vec<Hyperlink>,
    pub selection_rects: Vec<SelectionRect>,
    pub image_placements: Vec<ImagePlacement>,
    pub cursor: Cursor,
}

/// `s` cut into consecutive pieces of `n` entries; the last may be shorter.
pub open spec fn chunks_of<T>(s: Seq<T>, n: nat) -> Seq<Seq<T>>
    decreases s.len(),
{
    if n == 0 || s.len() == 0 {
        Seq::empty()
    } else if s.len() <= n {
        seq![s]
    } else {
        seq![s.take(n as int)] + chunks_of(s.skip(n as int), n)
    }
}

impl GridSnapshot {
    /// There is one cell per grid position.
    pub open spec fn wf(&self) -> bool {
        self.cells@.len() == self.cols * self.rows
    }

    /// The cell at column `x` of row `y`.
    pub fn cell(&self, x: usize, y: usize) -> (c: &Cell)
        requires
            y * self.cols + x < self.cells.len(),
        ensures
            *c == self.cells@[y * self.cols + x],
    {
        assert(y * self.cols >= 0) by (nonlinear_arith);
        &self.cells[y * self.cols + x]
    }

    /// The hyperlink of the cell at column `x` of row `y`, if any.
    pub fn hyperlink_at_cell(&self, x: usize, y: usize) -> (r: Option<&Hyperlink>)
        requires
            x < self.cols && y < self.rows ==> y * self.cols + x < self.cells@.len(),
        ensures
            r == (if x >= self.cols || y >= self.rows {
                None
            } else {
                match self.cells@[y * self.cols + x].hyperlink {
                    Some(i) => if i < self.hyperlinks@.len() { Some(&self.hyperlinks@[i as int]) } else { None },
                    None => None,
                }
            }),
    {
        if x >= self.cols || y >= self.rows {
            return None;
        }
        match self.cell(x, y).hyperlink {
            Some(i) => if i < self.hyperlinks.len() {
                Some(&self.hyperlinks[i])
            } else {
                None
            },
            None => None,
        }
    }

    /// The rows of cells, top to bottom.
    pub fn lines(&self) -> (r: Vec<&[Cell]>)
        requires
            self.cols > 0,
        ensures
            r@.map_values(|l: &[Cell]| l@) == chunks_of(self.cells@, self.cols as nat),
    {
        let mut out: Vec<&[Cell]> = Vec::new();
        let mut start: usize = 0;
        let n = self.cols;
        let len = self.cells.len();
        let ghost total = chunks_of(self.cells@, n as nat);
        assert(self.cells@.skip(0) =~= self.cells@);
        while start < len
            invariant
                n == self.cols,
                n > 0,
                len == self.cells@.len(),
                start <= len,
                total == chunks_of(self.cells@, n as nat),
                total == out@.map_values(|l: &[Cell]| l@) + chunks_of(self.cells@.skip(start as int), n as nat),
            decreases len - start,
        {
            let end = if len - start <= n { len } else { start + n };
            let piece = &self.cells.as_slice()[start..end];
            let ghost rest = self.cells@.skip(start as int);
            assert(piece@ =~= (if rest.len() <= n { rest } else { rest.take(n as int) }));
            assert(rest.len() > n ==> rest.skip(n as int) =~= self.cells@.skip(end as int));
            let ghost prev = out@.map_values(|l: &[Cell]| l@);
            out.push(piece);
            assert(out@.map_values(|l: &[Cell]| l@) =~= prev.push(piece@));
            proof {
                if rest.len() <= n as nat {
                    assert(self.cells@.skip(end as int) =~= Seq::<Cell>::empty());
                }
            }
            assert(chunks_of(rest, n as nat) =~= seq![piece@] + chunks_of(self.cells@.skip(end as int), n as nat));
            assert(prev + chunks_of(rest, n as nat) =~= out@.map_values(|l: &[Cell]| l@)
                + chunks_of(self.cells@.skip(end as int), n as nat));
            start = end;
        }
        assert(chunks_of(self.cells@.skip(start as int), n as nat) =~= Seq::<Seq<Cell>>::empty());
        assert(total =~= out@.map_values(|l: &[Cell]| l@));
        out
    }
}

/// Damaged range on one visible line.
#[derive(Clone, Copy, Debug, Eq, PartialEq, Structural)]
pub struct LineDamage {
    pub line: usize,
    pub left: usize,
    pub right: usize,
}

/// Rectangular damaged region.
#[derive(Clone, Copy, Debug, Eq, PartialEq, Structural)]
pub struct Rect {
    pub x: usize,
    pub y: usize,
    pub width: usize,
    pub height: usize,
}

/// Coarse render damage.
#[derive(Clone, Debug, Eq, PartialEq)]
pub enum Damage {
    /// Nothing to redraw.
    Clean,
    Full,
    Lines(Vec<LineDamage>),
    Rects(Vec<Rect>),
}

pub enum DamageView {
    Clean,
    Full,
    Lines(Seq<LineDamage>),
    Rects(Seq<Rect>),
}

impl View for Damage {
    type V = DamageView;

    open spec fn view(&self) -> DamageView {
        match self {
            Damage::Clean => DamageView::Clean,
            Damage::Full => DamageView::Full,
            Damage::Lines(l) => DamageView::Lines(l@),
            Damage::Rects(r) => DamageView::Rects(r@),
        }
    }
}

/// Position of the first entry of `lines` about `line`.
pub open spec fn line_position(lines: Seq<LineDamage>, line: usize) -> Option<int> {
    if exists|i: int| 0 <= i < lines.len() && (#[trigger] lines[i]).line == line
        && forall|j: int| 0 <= j < i ==> (#[trigger] lines[j]).line != line {
        Some(choose|i: int| 0 <= i < lines.len() && (#[trigger] lines[i]).line == line
            && forall|j: int| 0 <= j < i ==> (#[trigger] lines[j]).line != line)
    } else {
        None
    }
}

/// Add one damaged line range: widen the entry for the same line, or
/// append a new one.
pub open spec fn merge_line(lines: Seq<LineDamage>, d: LineDamage) -> Seq<LineDamage> {
    match line_position(lines, d.line) {
        Some(i) => lines.update(i, LineDamage {
            line: d.line,
            left: if lines[i].left <= d.left { lines[i].left } else { d.left },
            right: if lines[i].right >= d.right { lines[i].right } else { d.right },
        }),
        None => lines.push(d),
    }
}

/// Add the damaged line ranges of `next`, in order.
pub open spec fn merge_lines(lines: Seq<LineDamage>, next: Seq<LineDamage>) -> Seq<LineDamage>
    decreases next.len(),
{
    if next.len() == 0 {
        lines
    } else {
        merge_lines(merge_line(lines, next[0]), next.drop_first())
    }
}

/// The rectangle a line range covers: one row high, both ends included.
pub open spec fn line_rect(d: LineDamage) -> Rect {
    Rect {
        x: d.left,
        y: d.line,
        width: ((if d.right >= d.left { d.right - d.left } else { 0 }) + 1) as usize,
        height: 1,
    }
}

pub open spec fn spec_merge_damage(current: DamageView, next: DamageView) -> DamageView {
    match (current, next) {
        (DamageView::Full, _) => DamageView::Full,
        (_, DamageView::Full) => DamageView::Full,
        (DamageView::Clean, d) => d,
        (d, DamageView::Clean) => d,
        (DamageView::Lines(c), DamageView::Lines(n)) => DamageView::Lines(merge_lines(c, n)),
        (DamageView::Rects(c), DamageView::Rects(n)) => DamageView::Rects(c + n),
        (DamageView::Lines(l), DamageView::Rects(r)) => DamageView::Rects(r + l.map_values(|d: LineDamage| line_rect(d))),
        (DamageView::Rects(r), DamageView::Lines(l)) => DamageView::Rects(r + l.map_values(|d: LineDamage| line_rect(d))),
    }
}

/// No line range spans the whole `usize` range.
pub open spec fn line_widths_fit(lines: Seq<LineDamage>) -> bool {
    forall|i: int| 0 <= i < lines.len() ==> !((#[trigger] lines[i]).left == 0 && lines[i].right == usize::MAX)
}

pub open spec fn damage_widths_fit(d: DamageView) -> bool {
    match d {
        DamageView::Lines(l) => line_widths_fit(l),
        _ => true,
    }
}

fn find_line(lines: &Vec<LineDamage>, line: usize) -> (r: Option<usize>)
    ensures
        match r {
            Some(i) => line_position(lines@, line) == Some(i as int),
            None => line_position(lines@, line) is None,
        },
{
    let mut i: usize = 0;
    while i < lines.len()
        invariant
            i <= lines@.len(),
            forall|j: int| 0 <= j < i ==> (#[trigger] lines@[j]).line != line,
        decreases lines@.len() - i,
    {
        if lines[i].line == line {
            let ghost k = choose|k: int| 0 <= k < lines@.len() && (#[trigger] lines@[k]).line == line
                && forall|j: int| 0 <= j < k ==> (#[trigger] lines@[j]).line != line;
            assert(0 <= i < lines@.len() && lines@[i as int].line == line
                && forall|j: int| 0 <= j < i ==> (#[trigger] lines@[j]).line != line);
            assert(k == i) by {
                if k < i {
                    assert(lines@[k].line != line);
                } else if k > i {
                    assert(lines@[i as int].line != line);
                }
            }
            return Some(i);
        }
        i = i + 1;
    }
    None
}

fn line_rects(rects: &mut Vec<Rect>, lines: &Vec<LineDamage>)
    requires
        line_widths_fit(lines@),
    ensures
        final(rects)@ == old(rects)@ + lines@.map_values(|d: LineDamage| line_rect(d)),
{
    let mut i: usize = 0;
    while i < lines.len()
        invariant
            i <= lines@.len(),
            line_widths_fit(lines@),
            rects@ == old(rects)@ + lines@.take(i as int).map_values(|d: LineDamage| line_rect(d)),
        decreases lines@.len() - i,
    {
        let d = lines[i];
        assert(!(d.left == 0 && d.right == usize::MAX));
        let width = d.right.saturating_sub(d.left) + 1;
        rects.push(Rect { x: d.left, y: d.line, width, height: 1 });
        assert(lines@.take(i + 1).map_values(|d: LineDamage| line_rect(d))
            =~= lines@.take(i as int).map_values(|d: LineDamage| line_rect(d)).push(line_rect(d)));
        i = i + 1;
        assert(rects@ =~= old(rects)@ + lines@.take(i as int).map_values(|d: LineDamage| line_rect(d)));
    }
    assert(lines@.take(i as int) =~= lines@);
}

/// Combine pending damage with new damage.
pub fn merge_damage(current: Damage, next: Damage) -> (r: Damage)
    requires
        current@ is Rects ==> damage_widths_fit(next@),
        next@ is Rects ==> damage_widths_fit(current@),
    ensures
        r@ == spec_merge_damage(current@, next@),
{
    match (current, next) {
        (Damage::Full, _) => Damage::Full,
        (_, Damage::Full) => Damage::Full,
        (Damage::Clean, d) => d,
        (d, Damage::Clean) => d,
        (Damage::Lines(mut cur), Damage::Lines(nxt)) => {
            let ghost n0 = nxt@;
            let ghost c0 = cur@;
            let mut k: usize = 0;
            assert(n0.skip(0) =~= n0);
            while k < nxt.len()
                invariant
                    n0 == nxt@,
                    k <= n0.len(),
                    merge_lines(cur@, n0.skip(k as int)) == merge_lines(c0, n0),
                decreases n0.len() - k,
            {
                let d = nxt[k];
                assert(n0.skip(k as int)[0] == d);
                assert(n0.skip(k as int).drop_first() =~= n0.skip(k + 1));
                match find_line(&cur, d.line) {
                    Some(i) => {
                        let e = cur[i];
                        let left = if e.left <= d.left { e.left } else { d.left };
                        let right = if e.right >= d.right { e.right } else { d.right };
                        cur.set(i, LineDamage { line: d.line, left, right });
                    },
                    None => {
                        cur.push(d);
                    },
                }
                k = k + 1;
            }
            assert(n0.skip(k as int) =~= Seq::<LineDamage>::empty());
            Damage::Lines(cur)
        },
        (Damage::Rects(mut cur), Damage::Rects(nxt)) => {
            let mut i: usize = 0;
            let ghost c0 = cur@;
            while i < nxt.len()
                invariant
                    i <= nxt@.len(),
                    cur@ == c0 + nxt@.take(i as int),
                decreases nxt@.len() - i,
            {
                cur.push(nxt[i]);
                i = i + 1;
                assert(cur@ =~= c0 + nxt@.take(i as int));
            }
            assert(nxt@.take(i as int) =~= nxt@);
            Damage::Rects(cur)
        },
        (Damage::Lines(lines), Damage::Rects(mut rects)) => {
            line_rects(&mut rects, &lines);
            Damage::Rects(rects)
        },
        (Damage::Rects(mut rects), Damage::Lines(lines)) => {
            line_rects(&mut rects, &lines);
            Damage::Rects(rects)
        },
    }
}

/// Whether `a` comes no later than `b` in reading order.
pub open spec fn spec_selection_point_le(a: SelectionPoint, b: SelectionPoint) -> bool {
    a.row < b.row || (a.row == b.row && a.col <= b.col)
}

pub fn selection_point_le(a: SelectionPoint, b: SelectionPoint) -> (r: bool)
    ensures
        r == spec_selection_point_le(a, b),
{
    a.row < b.row || (a.row == b.row && a.col <= b.col)
}

/// A selection between two points, in reading order.
#[derive(Clone, Copy, Debug, Eq, PartialEq, Structural)]
pub struct SelectionRange {
    pub start: SelectionPoint,
    pub end: SelectionPoint,
}

impl SelectionRange {
    /// The range between `a` and `b`, whichever comes first.
    pub fn normalized(a: SelectionPoint, b: SelectionPoint) -> (r: Self)
        ensures
            r == (if spec_selection_point_le(a, b) {
                SelectionRange { start: a, end: b }
            } else {
                SelectionRange { start: b, end: a }
            }),
    {
        if selection_point_le(a, b) {
            SelectionRange { start: a, end: b }
        } else {
            SelectionRange { start: b, end: a }
        }
    }
}

/// `value` as an `isize`, saturating at `isize::MAX`.
pub fn usize_to_isize(value: usize) -> (r: isize)
    ensures
        r == (if value <= isize::MAX { value as int } else { isize::MAX as int }),
{
    if value <= isize::MAX as usize {
        value as isize
    } else {
        isize::MAX
    }
}

/// `value` as an `i32`, saturating at `i32::MAX`.
pub fn usize_to_i32(value: usize) -> (r: i32)
    ensures
        r == (if value <= i32::MAX { value as int } else { i32::MAX as int }),
{
    if value <= i32::MAX as usize {
        value as i32
    } else {
        i32::MAX
    }
}

/// Characters that belong to a word for word selection: ASCII letters and
/// digits and `_ . / : -`.
pub open spec fn spec_is_word_constituent(ch: char) -> bool {
    ('a' <= ch && ch <= 'z') || ('A' <= ch && ch <= 'Z') || ('0' <= ch && ch <= '9') || ch == '_' || ch == '.'
        || ch == '/' || ch == ':' || ch == '-'
}

pub fn is_word_constituent(ch: char) -> (r: bool)
    ensures
        r == spec_is_word_constituent(ch),
{
    ('a' <= ch && ch <= 'z') || ('A' <= ch && ch <= 'Z') || ('0' <= ch && ch <= '9') || ch == '_' || ch == '.'
        || ch == '/' || ch == ':' || ch == '-'
}


/// Full damage absorbs any other damage, and no damage changes nothing.
pub proof fn lemma_merge_damage_full_and_clean(d: DamageView)
    ensures
        spec_merge_damage(DamageView::Full, d) == DamageView::Full,
        spec_merge_damage(d, DamageView::Full) == DamageView::Full,
        spec_merge_damage(DamageView::Clean, d) == d,
        spec_merge_damage(d, DamageView::Clean) == d,
{
}

/// A normalized selection runs forward in reading order and keeps both ends.
pub proof fn lemma_normalized_selection_is_ordered(a: SelectionPoint, b: SelectionPoint)
    ensures
        ({
            let r = if spec_selection_point_le(a, b) {
                SelectionRange { start: a, end: b }
            } else {
                SelectionRange { start: b, end: a }
            };
            &&& spec_selection_point_le(r.start, r.end)
            &&& ((r.start == a && r.end == b) || (r.start == b && r.end == a))
        }),
{
}
} // verus!
