//! The image placements kept with the terminal history, and the cursor
//! movement that follows a Kitty image.

use vstd::prelude::*;
use crate::term::grid::{GridPoint, ImageId, ImagePlacement, ImagePlacementId};
use crate::text::{decimal, push_decimal, ESC};

verus! {

broadcast use vstd::seq_lib::group_seq_properties;

/// Logical image placements, in the order they were made. Each method
/// returns whether the whole grid has to be drawn again.
#[derive(Clone, Debug, Eq, PartialEq)]
pub struct ImagePlacements {
    placements: Vec<ImagePlacement>,
}

impl View for ImagePlacements {
    type V = Seq<ImagePlacement>;

    closed spec fn view(&self) -> Seq<ImagePlacement> {
        self.placements@
    }
}

/// The first position holding a placement with id `id`.
pub open spec fn placement_index(s: Seq<ImagePlacement>, id: ImagePlacementId) -> Option<int> {
    if exists|i: int| 0 <= i < s.len() && s[i].placement_id == id && forall|j: int| 0 <= j < i ==> #[trigger] s[j].placement_id != id {
        Some(choose|i: int| 0 <= i < s.len() && s[i].placement_id == id && forall|j: int| 0 <= j < i ==> #[trigger] s[j].placement_id != id)
    } else {
        None
    }
}

/// `p` in place of the first placement with its id, or added at the end.
pub open spec fn spec_upsert(s: Seq<ImagePlacement>, p: ImagePlacement) -> Seq<ImagePlacement> {
    match placement_index(s, p.placement_id) {
        Some(i) => s.update(i, p),
        None => s.push(p),
    }
}

/// No two placements share an id.
pub open spec fn ids_unique(s: Seq<ImagePlacement>) -> bool {
    forall|i: int, j: int| 0 <= i < j < s.len() ==> #[trigger] s[i].placement_id != #[trigger] s[j].placement_id
}

pub open spec fn keeps_placement(id: ImagePlacementId) -> spec_fn(ImagePlacement) -> bool {
    |p: ImagePlacement| p.placement_id != id
}

pub open spec fn keeps_image(image: ImageId) -> spec_fn(ImagePlacement) -> bool {
    |p: ImagePlacement| p.image_id != image
}

impl ImagePlacements {
    pub fn new() -> (r: Self)
        ensures
            r@ == Seq::<ImagePlacement>::empty(),
    {
        ImagePlacements { placements: Vec::new() }
    }

    /// The placements, oldest first.
    pub fn as_slice(&self) -> (r: &[ImagePlacement])
        ensures
            r@ == self@,
    {
        self.placements.as_slice()
    }

    pub fn len(&self) -> (r: usize)
        ensures
            r == self@.len(),
    {
        self.placements.len()
    }

    /// Adds a placement at the end.
    pub fn add(&mut self, placement: ImagePlacement) -> (redraw: bool)
        ensures
            final(self)@ == old(self)@.push(placement),
            redraw,
    {
        self.placements.push(placement);
        true
    }

    /// Adds a placement, or replaces the first one with the same id.
    pub fn upsert(&mut self, placement: ImagePlacement) -> (redraw: bool)
        ensures
            final(self)@ == spec_upsert(old(self)@, placement),
            redraw,
    {
        let mut i: usize = 0;
        while i < self.placements.len()
            invariant
                self@ == old(self)@,
                i <= self@.len(),
                forall|j: int| 0 <= j < i ==> #[trigger] self@[j].placement_id != placement.placement_id,
            decreases self@.len() - i,
        {
            if self.placements[i].placement_id == placement.placement_id {
                assert(placement_index(self@, placement.placement_id) == Some(i as int)) by {
                    let k = choose|k: int| 0 <= k < self@.len() && self@[k].placement_id == placement.placement_id
                        && forall|j: int| 0 <= j < k ==> #[trigger] self@[j].placement_id != placement.placement_id;
                    if k < i {
                        assert(self@[k].placement_id != placement.placement_id);
                    }
                    if k > i {
                        assert(self@[i as int].placement_id != placement.placement_id);
                    }
                }
                self.placements.set(i, placement);
                return true;
            }
            i += 1;
        }
        self.placements.push(placement);
        true
    }

    /// Removes every placement with id `id`; redraw when one was removed.
    pub fn remove(&mut self, id: ImagePlacementId) -> (redraw: bool)
        ensures
            final(self)@ == old(self)@.filter(keeps_placement(id)),
            redraw == (final(self)@.len() != old(self)@.len()),
    {
        let old_len = self.placements.len();
        let mut kept: Vec<ImagePlacement> = Vec::new();
        let mut i: usize = 0;
        while i < self.placements.len()
            invariant
                self@ == old(self)@,
                i <= self@.len(),
                kept@ == self@.take(i as int).filter(keeps_placement(id)),
            decreases self@.len() - i,
        {
            let p = self.placements[i];
            proof {
                assert(self@.take(i + 1) =~= self@.take(i as int).push(p));
                self@.take(i as int).lemma_filter_push(p, keeps_placement(id));
            }
            if p.placement_id != id {
                kept.push(p);
            }
            i += 1;
        }
        assert(self@.take(i as int) =~= self@);
        self.placements = kept;
        self.placements.len() != old_len
    }

    /// Removes every placement of image `image`; redraw when one was
    /// removed.
    pub fn remove_image(&mut self, image: ImageId) -> (redraw: bool)
        ensures
            final(self)@ == old(self)@.filter(keeps_image(image)),
            redraw == (final(self)@.len() != old(self)@.len()),
    {
        let old_len = self.placements.len();
        let mut kept: Vec<ImagePlacement> = Vec::new();
        let mut i: usize = 0;
        while i < self.placements.len()
            invariant
                self@ == old(self)@,
                i <= self@.len(),
                kept@ == self@.take(i as int).filter(keeps_image(image)),
            decreases self@.len() - i,
        {
            let p = self.placements[i];
            proof {
                assert(self@.take(i + 1) =~= self@.take(i as int).push(p));
                self@.take(i as int).lemma_filter_push(p, keeps_image(image));
            }
            if p.image_id != image {
                kept.push(p);
            }
            i += 1;
        }
        assert(self@.take(i as int) =~= self@);
        self.placements = kept;
        self.placements.len() != old_len
    }

    /// Removes every placement; redraw when there was one.
    pub fn clear(&mut self) -> (redraw: bool)
        ensures
            final(self)@ == Seq::<ImagePlacement>::empty(),
            redraw == (old(self)@.len() > 0),
    {
        if self.placements.len() > 0 {
            self.placements = Vec::new();
            true
        } else {
            false
        }
    }

    /// The image of each placement, oldest first.
    pub fn image_ids(&self) -> (r: Vec<ImageId>)
        ensures
            r@ == self@.map_values(|p: ImagePlacement| p.image_id),
    {
        let mut out: Vec<ImageId> = Vec::new();
        let mut i: usize = 0;
        while i < self.placements.len()
            invariant
                i <= self@.len(),
                out@ == self@.take(i as int).map_values(|p: ImagePlacement| p.image_id),
            decreases self@.len() - i,
        {
            out.push(self.placements[i].image_id);
            assert(out@ =~= self@.take(i + 1).map_values(|p: ImagePlacement| p.image_id));
            i += 1;
        }
        assert(self@.take(i as int) =~= self@);
        out
    }

    /// The id of each placement, oldest first.
    pub fn placement_ids(&self) -> (r: Vec<ImagePlacementId>)
        ensures
            r@ == self@.map_values(|p: ImagePlacement| p.placement_id),
    {
        let mut out: Vec<ImagePlacementId> = Vec::new();
        let mut i: usize = 0;
        while i < self.placements.len()
            invariant
                i <= self@.len(),
                out@ == self@.take(i as int).map_values(|p: ImagePlacement| p.placement_id),
            decreases self@.len() - i,
        {
            out.push(self.placements[i].placement_id);
            assert(out@ =~= self@.take(i + 1).map_values(|p: ImagePlacement| p.placement_id));
            i += 1;
        }
        assert(self@.take(i as int) =~= self@);
        out
    }
}

/// How far output that grew the history from `previous` to `current`
/// lines moves the placements up: the lines added, at most `isize::MAX`.
pub open spec fn history_shift(previous: usize, current: usize) -> int {
    if current <= previous {
        0
    } else if current - previous > isize::MAX {
        isize::MAX as int
    } else {
        current - previous
    }
}

/// `row` moved up by `shift` rows, stopping at `isize::MIN`.
pub open spec fn row_moved_up(row: isize, shift: int) -> isize {
    if row - shift < isize::MIN { isize::MIN } else { (row - shift) as isize }
}

/// `p` moved up by `shift` rows.
pub open spec fn moved_up(p: ImagePlacement, shift: int) -> ImagePlacement {
    ImagePlacement { anchor: GridPoint { col: p.anchor.col, row: row_moved_up(p.anchor.row, shift) }, ..p }
}

/// `p` still reaches below the oldest of `history` history lines.
pub open spec fn reaches_history(p: ImagePlacement, history: usize) -> bool {
    p.anchor.row + p.rows > -(history as int)
}

/// The placements of `s`, moved up by `shift` rows, that still reach into
/// a history of `history` lines, in order.
pub open spec fn spec_after_output_scroll(s: Seq<ImagePlacement>, shift: int, history: usize) -> Seq<ImagePlacement>
    decreases s.len(),
{
    if s.len() == 0 {
        s
    } else {
        let rest = spec_after_output_scroll(s.drop_last(), shift, history);
        let p = moved_up(s.last(), shift);
        if reaches_history(p, history) { rest.push(p) } else { rest }
    }
}

/// The bottom row of every placement fits an `isize`.
pub open spec fn bottoms_fit(s: Seq<ImagePlacement>) -> bool {
    forall|i: int| 0 <= i < s.len() ==> #[trigger] s[i].anchor.row + s[i].rows <= isize::MAX
}

impl ImagePlacements {
    /// Follows output that grew the scrollback history from
    /// `previous_history` to `current_history` lines: every placement moves
    /// up by the lines added, and those now wholly above the oldest history
    /// line are dropped. The grid is drawn again when the history grew.
    pub fn follow_output_scroll(&mut self, previous_history: usize, current_history: usize) -> (redraw: bool)
        requires
            current_history <= isize::MAX,
            bottoms_fit(old(self)@),
        ensures
            final(self)@ == spec_after_output_scroll(
                old(self)@,
                history_shift(previous_history, current_history),
                current_history,
            ),
            redraw == (current_history > previous_history),
    {
        let added = current_history.saturating_sub(previous_history);
        let shift: isize = if added > isize::MAX as usize { isize::MAX } else { added as isize };
        let topmost: isize = -(current_history as isize);
        let ghost before = self.placements@;
        let mut kept: Vec<ImagePlacement> = Vec::new();
        let mut i: usize = 0;
        while i < self.placements.len()
            invariant
                i <= before.len(),
                self.placements@ == before,
                bottoms_fit(before),
                shift == history_shift(previous_history, current_history),
                topmost == -(current_history as int),
                0 <= shift,
                kept@ == spec_after_output_scroll(before.take(i as int), shift as int, current_history),
            decreases before.len() - i,
        {
            let p = self.placements[i];
            let row: isize = if p.anchor.row < isize::MIN + shift { isize::MIN } else { p.anchor.row - shift };
            let moved = ImagePlacement { anchor: GridPoint { col: p.anchor.col, row }, ..p };
            assert(before.take(i + 1).drop_last() =~= before.take(i as int));
            assert(moved == moved_up(before[i as int], shift as int));
            if row + (moved.rows as isize) > topmost {
                kept.push(moved);
            }
            i += 1;
        }
        assert(before.take(before.len() as int) =~= before);
        self.placements = kept;
        added != 0
    }
}

// ---------------------------------------------------------------------
// Laws.
// ---------------------------------------------------------------------

/// Upserting keeps placement ids unique, and afterwards the placement with
/// the upserted id is the upserted placement.
pub proof fn lemma_upsert_keeps_ids_unique(s: Seq<ImagePlacement>, p: ImagePlacement)
    requires
        ids_unique(s),
    ensures
        ids_unique(spec_upsert(s, p)),
        spec_upsert(s, p).contains(p),
        forall|i: int| 0 <= i < spec_upsert(s, p).len() && #[trigger] spec_upsert(s, p)[i].placement_id == p.placement_id
            ==> spec_upsert(s, p)[i] == p,
{
    let r = spec_upsert(s, p);
    match placement_index(s, p.placement_id) {
        Some(k) => {
            assert(r[k] == p);
            assert forall|i: int, j: int| 0 <= i < j < r.len() implies #[trigger] r[i].placement_id != #[trigger] r[j].placement_id by {
                if i == k {
                    assert(s[k].placement_id == p.placement_id);
                } else if j == k {
                    assert(s[k].placement_id == p.placement_id);
                }
            }
        },
        None => {
            assert(r[s.len() as int] == p);
            assert forall|i: int| 0 <= i < s.len() implies #[trigger] s[i].placement_id != p.placement_id by {
                if s[i].placement_id == p.placement_id {
                    let first = choose|m: int| 0 <= m <= i && s[m].placement_id == p.placement_id
                        && forall|j: int| 0 <= j < m ==> #[trigger] s[j].placement_id != p.placement_id;
                    assert(exists|m: int| 0 <= m <= i && s[m].placement_id == p.placement_id
                        && forall|j: int| 0 <= j < m ==> #[trigger] s[j].placement_id != p.placement_id) by {
                        lemma_first_with_id(s, p.placement_id, i);
                    }
                    assert(false);
                }
            }
        },
    }
}

proof fn lemma_first_with_id(s: Seq<ImagePlacement>, id: ImagePlacementId, i: int)
    requires
        0 <= i < s.len(),
        s[i].placement_id == id,
    ensures
        exists|m: int| 0 <= m <= i && s[m].placement_id == id
            && forall|j: int| 0 <= j < m ==> #[trigger] s[j].placement_id != id,
    decreases i,
{
    if exists|j: int| 0 <= j < i && s[j].placement_id == id {
        let j = choose|j: int| 0 <= j < i && s[j].placement_id == id;
        lemma_first_with_id(s, id, j);
    } else {
        assert(forall|j: int| 0 <= j < i ==> #[trigger] s[j].placement_id != id);
    }
}

/// After removing a placement id, or an image, no placement has that id or
/// An upsert replaces the placement with the same id where it stands and
/// keeps the others in order; without one, the new placement is added at
/// the end.
pub proof fn lemma_upsert_replaces_in_place_or_appends(s: Seq<ImagePlacement>, p: ImagePlacement)
    requires
        ids_unique(s),
    ensures
        (exists|i: int| 0 <= i < s.len() && s[i].placement_id == p.placement_id) ==> {
            let i = choose|i: int| 0 <= i < s.len() && s[i].placement_id == p.placement_id;
            &&& spec_upsert(s, p).len() == s.len()
            &&& spec_upsert(s, p)[i] == p
            &&& forall|j: int| 0 <= j < s.len() && j != i ==> #[trigger] spec_upsert(s, p)[j] == s[j]
        },
        !(exists|i: int| 0 <= i < s.len() && s[i].placement_id == p.placement_id) ==> spec_upsert(s, p) == s.push(p),
        ids_unique(spec_upsert(s, p)),
{
    lemma_upsert_keeps_ids_unique(s, p);
    if exists|i: int| 0 <= i < s.len() && s[i].placement_id == p.placement_id {
        let i = choose|i: int| 0 <= i < s.len() && s[i].placement_id == p.placement_id;
        match placement_index(s, p.placement_id) {
            Some(k) => {
                if k != i {
                    if k < i {
                        assert(s[k].placement_id != s[i].placement_id);
                    } else {
                        assert(s[i].placement_id != s[k].placement_id);
                    }
                }
            },
            None => {
                assert(forall|j: int| 0 <= j < i ==> #[trigger] s[j].placement_id != p.placement_id) by {
                    assert forall|j: int| 0 <= j < i implies #[trigger] s[j].placement_id != p.placement_id by {
                        assert(s[j].placement_id != s[i].placement_id);
                    }
                }
            },
        }
    } else {
        match placement_index(s, p.placement_id) {
            Some(k) => {},
            None => {},
        }
    }
}

/// shows that image, and every other placement is kept.
pub proof fn lemma_remove_drops_exactly_the_matches(s: Seq<ImagePlacement>, id: ImagePlacementId, image: ImageId)
    ensures
        forall|i: int| 0 <= i < s.filter(keeps_placement(id)).len() ==> #[trigger] s.filter(keeps_placement(id))[i].placement_id != id,
        forall|q: ImagePlacement| s.contains(q) && q.placement_id != id ==> #[trigger] s.filter(keeps_placement(id)).contains(q),
        forall|i: int| 0 <= i < s.filter(keeps_image(image)).len() ==> #[trigger] s.filter(keeps_image(image))[i].image_id != image,
        forall|q: ImagePlacement| s.contains(q) && q.image_id != image ==> #[trigger] s.filter(keeps_image(image)).contains(q),
{
    assert forall|i: int| 0 <= i < s.filter(keeps_placement(id)).len() implies #[trigger] s.filter(keeps_placement(id))[i].placement_id != id by {
        s.lemma_filter_pred(keeps_placement(id), i);
    }
    assert forall|q: ImagePlacement| s.contains(q) && q.placement_id != id implies #[trigger] s.filter(keeps_placement(id)).contains(q) by {
        let k = choose|k: int| 0 <= k < s.len() && s[k] == q;
        s.lemma_filter_contains(keeps_placement(id), k);
    }
    assert forall|i: int| 0 <= i < s.filter(keeps_image(image)).len() implies #[trigger] s.filter(keeps_image(image))[i].image_id != image by {
        s.lemma_filter_pred(keeps_image(image), i);
    }
    assert forall|q: ImagePlacement| s.contains(q) && q.image_id != image implies #[trigger] s.filter(keeps_image(image)).contains(q) by {
        let k = choose|k: int| 0 <= k < s.len() && s[k] == q;
        s.lemma_filter_contains(keeps_image(image), k);
    }
}

// ---------------------------------------------------------------------
// Cursor movement after a Kitty image.
// ---------------------------------------------------------------------

/// The cursor movement after a Kitty image of `columns` by `rows` cells
/// drawn with the cursor at `cursor_column`: down `rows - 1` rows (one more
/// when the image reaches the right edge, which also returns the cursor to
/// the first column) with `CSI n B`, then to the column after the image
/// with `CSI n G`. Nothing for an empty image.
pub open spec fn spec_kitty_cursor_move(cursor_column: usize, terminal_columns: usize, columns: u16, rows: u16) -> Option<Seq<u8>> {
    if columns == 0 || rows == 0 {
        None
    } else {
        let width: int = if terminal_columns < 1 { 1 } else { terminal_columns as int };
        let horizontal: int = if cursor_column + columns > usize::MAX { usize::MAX as int } else { cursor_column + columns };
        let wrapped: int = if horizontal >= width { 1 } else { 0 };
        let target: int = if wrapped == 0 { horizontal } else { 0 };
        let down: int = rows - 1 + wrapped;
        Some(
            (if down != 0 { seq![ESC, 0x5bu8] + decimal(down as nat) + seq![0x42u8] } else { Seq::empty() })
                + seq![ESC, 0x5bu8] + decimal((target + 1) as nat) + seq![0x47u8],
        )
    }
}

pub fn kitty_cursor_move_sequence(cursor_column: usize, terminal_columns: usize, columns: u16, rows: u16) -> (r: Option<Vec<u8>>)
    ensures
        match r {
            Some(bytes) => spec_kitty_cursor_move(cursor_column, terminal_columns, columns, rows) == Some(bytes@),
            None => spec_kitty_cursor_move(cursor_column, terminal_columns, columns, rows) is None,
        },
{
    if columns == 0 || rows == 0 {
        return None;
    }
    let width = if terminal_columns < 1 { 1 } else { terminal_columns };
    let horizontal = cursor_column.saturating_add(columns as usize);
    let wrapped: usize = if horizontal >= width { 1 } else { 0 };
    let target = if wrapped == 0 { horizontal } else { 0 };
    let down = ((rows - 1) as usize).saturating_add(wrapped);
    let mut sequence: Vec<u8> = Vec::with_capacity(32);
    if down != 0 {
        sequence.push(ESC);
        sequence.push(0x5b);
        push_decimal(&mut sequence, down as u64);
        sequence.push(0x42);
    }
    let ghost head = sequence@;
    sequence.push(ESC);
    sequence.push(0x5b);
    push_decimal(&mut sequence, (target + 1) as u64);
    sequence.push(0x47);
    assert(sequence@ =~= head + seq![ESC, 0x5bu8] + decimal((target + 1) as nat) + seq![0x47u8]);
    Some(sequence)
}

/// After output scrolls the history, every placement left still reaches
/// into the history, each is an earlier placement moved up by the lines
/// added, and none was added.
pub proof fn lemma_output_scroll_keeps_reachable(s: Seq<ImagePlacement>, shift: int, history: usize)
    ensures
        spec_after_output_scroll(s, shift, history).len() <= s.len(),
        forall|j: int| 0 <= j < spec_after_output_scroll(s, shift, history).len() ==> {
            let q = #[trigger] spec_after_output_scroll(s, shift, history)[j];
            &&& reaches_history(q, history)
            &&& exists|i: int| 0 <= i < s.len() && q == moved_up(s[i], shift)
        },
    decreases s.len(),
{
    if s.len() > 0 {
        let rest = s.drop_last();
        lemma_output_scroll_keeps_reachable(rest, shift, history);
        let out = spec_after_output_scroll(s, shift, history);
        assert forall|j: int| 0 <= j < out.len() implies {
            let q = #[trigger] out[j];
            &&& reaches_history(q, history)
            &&& exists|i: int| 0 <= i < s.len() && q == moved_up(s[i], shift)
        } by {
            let prev = spec_after_output_scroll(rest, shift, history);
            if j < prev.len() {
                let q = prev[j];
                let i = choose|i: int| 0 <= i < rest.len() && q == moved_up(rest[i], shift);
                assert(s[i] == rest[i]);
            } else {
                assert(s[s.len() - 1] == s.last());
            }
        }
    }
}

} // verus!
