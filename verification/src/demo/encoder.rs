//! Encoding a canvas as terminal output: each terminal cell shows two
//! vertically stacked pixels, either as a space on the shared background
//! color or as an upper half block in the top color over the bottom color.
//! Color changes are emitted only when the color in effect differs.

use vstd::prelude::*;
use crate::demo::canvas::{Canvas, CanvasView, Palette, PaletteIndex, Rgb};
use crate::text::{decimal, push_decimal, ESC};

verus! {

/// The UTF-8 bytes of `▀` (U+2580 UPPER HALF BLOCK).
pub open spec fn upper_half_block() -> Seq<u8> {
    seq![0xe2u8, 0x96u8, 0x80u8]
}

/// How two pixels are shown in one terminal cell.
#[derive(Clone, Copy, Debug, PartialEq, Eq, Structural)]
pub enum CellEncoding {
    HalfBlock,
}

/// Which cells are written per frame.
#[derive(Clone, Copy, Debug, PartialEq, Eq, Structural)]
pub enum UpdateMode {
    Full,
}

/// The colors in effect in the terminal while a frame is written.
pub struct SgrState {
    pub fg: Option<PaletteIndex>,
    pub bg: Option<PaletteIndex>,
}

/// `ESC [ 48;2;r;g;b m`: set the background color.
pub open spec fn bg_sgr(c: Rgb) -> Seq<u8> {
    seq![ESC, 0x5bu8, 0x34u8, 0x38u8, 0x3bu8, 0x32u8, 0x3bu8] + decimal(c.r as nat) + seq![0x3bu8]
        + decimal(c.g as nat) + seq![0x3bu8] + decimal(c.b as nat) + seq![0x6du8]
}

/// `ESC [ 38;2;r;g;b;48;2;r;g;b m`: set the foreground and background colors.
pub open spec fn fg_bg_sgr(fg: Rgb, bg: Rgb) -> Seq<u8> {
    seq![ESC, 0x5bu8, 0x33u8, 0x38u8, 0x3bu8, 0x32u8, 0x3bu8] + decimal(fg.r as nat) + seq![0x3bu8]
        + decimal(fg.g as nat) + seq![0x3bu8] + decimal(fg.b as nat)
        + seq![0x3bu8, 0x34u8, 0x38u8, 0x3bu8, 0x32u8, 0x3bu8] + decimal(bg.r as nat) + seq![0x3bu8]
        + decimal(bg.g as nat) + seq![0x3bu8] + decimal(bg.b as nat) + seq![0x6du8]
}

/// `ESC [ row ;1H`: move the cursor to the start of a 1-based row.
pub open spec fn row_start(row: nat) -> Seq<u8> {
    seq![ESC, 0x5bu8] + decimal(row) + seq![0x3bu8, 0x31u8, 0x48u8]
}

/// The top and bottom pixel of the cell in column `x` of terminal row `row`;
/// a missing bottom pixel counts as background.
pub open spec fn cell_pixels(c: CanvasView, x: int, row: int) -> (PaletteIndex, PaletteIndex) {
    let top = c.at(x, 2 * row);
    let bottom = if 2 * row + 1 < c.height { c.at(x, 2 * row + 1) } else { PaletteIndex::Background };
    (top, bottom)
}

/// The bytes for one cell, and the colors in effect afterwards.
pub open spec fn cell_output(p: Palette, top: PaletteIndex, bottom: PaletteIndex, st: SgrState) -> (Seq<u8>, SgrState) {
    if top == bottom {
        let sgr = if st.bg == Some(top) { Seq::empty() } else { bg_sgr(p.spec_color(top)) };
        (sgr + seq![0x20u8], SgrState { fg: st.fg, bg: Some(top) })
    } else {
        let sgr = if st.fg == Some(top) && st.bg == Some(bottom) {
            Seq::empty()
        } else {
            fg_bg_sgr(p.spec_color(top), p.spec_color(bottom))
        };
        (sgr + upper_half_block(), SgrState { fg: Some(top), bg: Some(bottom) })
    }
}

/// `out` followed by the cells of terminal row `row` from column `x` on.
pub open spec fn encode_row_from(p: Palette, c: CanvasView, row: int, x: int, st: SgrState, out: Seq<u8>) -> (Seq<u8>, SgrState)
    decreases c.width - x,
{
    if x >= c.width {
        (out, st)
    } else {
        let (top, bottom) = cell_pixels(c, x, row);
        let (bytes, next) = cell_output(p, top, bottom, st);
        encode_row_from(p, c, row, x + 1, next, out + bytes)
    }
}

/// Number of terminal rows a canvas takes: half its height, rounded up.
pub open spec fn terminal_rows(c: CanvasView) -> nat {
    ((c.height + 1) / 2) as nat
}

/// `out` followed by the terminal rows from `row` on, each after the first
/// preceded by a cursor move to its start.
pub open spec fn encode_rows_from(p: Palette, c: CanvasView, row: int, st: SgrState, out: Seq<u8>) -> Seq<u8>
    decreases terminal_rows(c) - row,
{
    if row < 0 || row >= terminal_rows(c) {
        out
    } else {
        let moved = if row > 0 { out + row_start((row + 1) as nat) } else { out };
        let (after, next) = encode_row_from(p, c, row, 0, st, moved);
        encode_rows_from(p, c, row + 1, next, after)
    }
}

/// `out` followed by the full-frame encoding of `c`.
pub open spec fn spec_encode_frame(p: Palette, c: CanvasView, out: Seq<u8>) -> Seq<u8> {
    encode_rows_from(p, c, 0, SgrState { fg: None, bg: None }, out)
}

fn push_sgr_prefix(output: &mut Vec<u8>, first: u8)
    ensures
        final(output)@ == old(output)@ + seq![ESC, 0x5bu8, first, 0x38u8, 0x3bu8, 0x32u8, 0x3bu8],
{
    output.push(ESC);
    output.push(0x5b);
    output.push(first);
    output.push(0x38);
    output.push(0x3b);
    output.push(0x32);
    output.push(0x3b);
}

fn push_rgb(output: &mut Vec<u8>, c: Rgb)
    ensures
        final(output)@ == old(output)@ + decimal(c.r as nat) + seq![0x3bu8] + decimal(c.g as nat) + seq![0x3bu8]
            + decimal(c.b as nat),
{
    push_decimal(output, c.r as u64);
    output.push(0x3b);
    push_decimal(output, c.g as u64);
    output.push(0x3b);
    push_decimal(output, c.b as u64);
}

fn push_bg_sgr(bg: Rgb, output: &mut Vec<u8>)
    ensures
        final(output)@ == old(output)@ + bg_sgr(bg),
{
    push_sgr_prefix(output, 0x34);
    push_rgb(output, bg);
    output.push(0x6d);
    assert(output@ =~= old(output)@ + bg_sgr(bg));
}

fn push_fg_bg_sgr(fg: Rgb, bg: Rgb, output: &mut Vec<u8>)
    ensures
        final(output)@ == old(output)@ + fg_bg_sgr(fg, bg),
{
    push_sgr_prefix(output, 0x33);
    push_rgb(output, fg);
    output.push(0x3b);
    push_sgr_prefix_tail(output);
    push_rgb(output, bg);
    output.push(0x6d);
    assert(output@ =~= old(output)@ + fg_bg_sgr(fg, bg));
}

fn push_sgr_prefix_tail(output: &mut Vec<u8>)
    ensures
        final(output)@ == old(output)@ + seq![0x34u8, 0x38u8, 0x3bu8, 0x32u8, 0x3bu8],
{
    output.push(0x34);
    output.push(0x38);
    output.push(0x3b);
    output.push(0x32);
    output.push(0x3b);
}

/// Writes canvases as terminal output with a fixed palette.
#[derive(Clone, Copy, Debug)]
pub struct FrameEncoder {
    palette: Palette,
    encoding: CellEncoding,
    update_mode: UpdateMode,
}

impl FrameEncoder {
    pub closed spec fn spec_palette(self) -> Palette {
        self.palette
    }

    /// A half-block, full-frame encoder for `palette`.
    pub fn new(palette: Palette) -> (e: Self)
        ensures
            e.spec_palette() == palette,
    {
        FrameEncoder { palette, encoding: CellEncoding::HalfBlock, update_mode: UpdateMode::Full }
    }

    /// Append the encoding of `canvas` to `output`.
    pub fn encode(&self, canvas: &Canvas, output: &mut Vec<u8>)
        requires
            canvas@.wf(),
        ensures
            final(output)@ == spec_encode_frame(self.spec_palette(), canvas@, old(output)@),
    {
        match (self.encoding, self.update_mode) {
            (CellEncoding::HalfBlock, UpdateMode::Full) => self.encode_half_block_full(canvas, output),
        }
    }

    fn encode_half_block_full(&self, canvas: &Canvas, output: &mut Vec<u8>)
        requires
            canvas@.wf(),
        ensures
            final(output)@ == spec_encode_frame(self.palette, canvas@, old(output)@),
    {
        let ghost c = canvas@;
        let ghost p = self.palette;
        let height = canvas.height();
        let width = canvas.width();
        let rows = height / 2 + height % 2;
        let mut current_fg: Option<PaletteIndex> = None;
        let mut current_bg: Option<PaletteIndex> = None;
        let mut row: usize = 0;
        while row < rows
            invariant
                c == canvas@,
                p == self.palette,
                c.wf(),
                height == c.height,
                width == c.width,
                rows == terminal_rows(c),
                row <= rows,
                spec_encode_frame(p, c, old(output)@)
                    == encode_rows_from(p, c, row as int, SgrState { fg: current_fg, bg: current_bg }, output@),
            decreases rows - row,
        {
            let ghost row_begin = output@;
            if row > 0 {
                output.push(ESC);
                output.push(0x5b);
                push_decimal(output, (row + 1) as u64);
                output.push(0x3b);
                output.push(0x31);
                output.push(0x48);
            }
            let ghost moved = output@;
            assert(moved =~= (if row > 0 { row_begin + row_start((row + 1) as nat) } else { row_begin }));
            let ghost st0 = SgrState { fg: current_fg, bg: current_bg };
            let mut x: usize = 0;
            while x < width
                invariant
                    c == canvas@,
                    p == self.palette,
                    c.wf(),
                    height == c.height,
                    width == c.width,
                    rows == terminal_rows(c),
                    row < rows,
                    x <= width,
                    spec_encode_frame(p, c, old(output)@)
                        == encode_rows_from(p, c, row as int + 1, encode_row_from(p, c, row as int, 0, st0, moved).1,
                            encode_row_from(p, c, row as int, 0, st0, moved).0),
                    encode_row_from(p, c, row as int, 0, st0, moved)
                        == encode_row_from(p, c, row as int, x as int, SgrState { fg: current_fg, bg: current_bg }, output@),
                decreases width - x,
            {
                let top = canvas.pixel_at(x, row * 2);
                let bottom = if row * 2 + 1 < height {
                    canvas.pixel_at(x, row * 2 + 1)
                } else {
                    PaletteIndex::Background
                };
                let ghost st = SgrState { fg: current_fg, bg: current_bg };
                let ghost before = output@;
                assert((top, bottom) == cell_pixels(c, x as int, row as int));
                if top == bottom {
                    if current_bg != Some(top) {
                        push_bg_sgr(self.palette.color(top), output);
                        current_bg = Some(top);
                    }
                    output.push(0x20);
                } else {
                    if !(current_fg == Some(top) && current_bg == Some(bottom)) {
                        push_fg_bg_sgr(self.palette.color(top), self.palette.color(bottom), output);
                        current_fg = Some(top);
                        current_bg = Some(bottom);
                    }
                    output.push(0xe2);
                    output.push(0x96);
                    output.push(0x80);
                }
                assert(output@ =~= before + cell_output(p, top, bottom, st).0);
                x = x + 1;
            }
            row = row + 1;
        }
    }
}

proof fn lemma_row_extends(p: Palette, c: CanvasView, row: int, x: int, st: SgrState, out: Seq<u8>)
    ensures
        encode_row_from(p, c, row, x, st, out).0.len() >= out.len(),
        encode_row_from(p, c, row, x, st, out).0.take(out.len() as int) == out,
    decreases c.width - x,
{
    if x < c.width {
        let (top, bottom) = cell_pixels(c, x, row);
        let (bytes, next) = cell_output(p, top, bottom, st);
        lemma_row_extends(p, c, row, x + 1, next, out + bytes);
        let whole = encode_row_from(p, c, row, x + 1, next, out + bytes).0;
        assert(whole.take(out.len() as int) =~= (out + bytes).take(out.len() as int));
    }
}

proof fn lemma_rows_extend(p: Palette, c: CanvasView, row: int, st: SgrState, out: Seq<u8>)
    ensures
        encode_rows_from(p, c, row, st, out).len() >= out.len(),
        encode_rows_from(p, c, row, st, out).take(out.len() as int) == out,
    decreases terminal_rows(c) - row,
{
    if 0 <= row < terminal_rows(c) {
        let moved = if row > 0 { out + row_start((row + 1) as nat) } else { out };
        let (after, next) = encode_row_from(p, c, row, 0, st, moved);
        lemma_row_extends(p, c, row, 0, st, moved);
        lemma_rows_extend(p, c, row + 1, next, after);
        let whole = encode_rows_from(p, c, row + 1, next, after);
        assert(whole.take(out.len() as int) =~= after.take(moved.len() as int).take(out.len() as int));
        assert(moved.take(out.len() as int) =~= out);
    } else {
        assert(out.take(out.len() as int) =~= out);
    }
}

proof fn lemma_frame_reaches_row(p: Palette, c: CanvasView, out: Seq<u8>, r: int)
    requires
        0 <= r <= terminal_rows(c),
    ensures
        exists|st: SgrState, mid: Seq<u8>| #[trigger] encode_rows_from(p, c, r, st, mid) == spec_encode_frame(p, c, out),
    decreases r,
{
    if r == 0 {
        assert(encode_rows_from(p, c, 0, SgrState { fg: None, bg: None }, out) == spec_encode_frame(p, c, out));
    } else {
        lemma_frame_reaches_row(p, c, out, r - 1);
        let (st, mid) = choose|st: SgrState, mid: Seq<u8>| #[trigger] encode_rows_from(p, c, r - 1, st, mid) == spec_encode_frame(p, c, out);
        let moved = if r - 1 > 0 { mid + row_start(r as nat) } else { mid };
        let (after, next) = encode_row_from(p, c, r - 1, 0, st, moved);
        assert(encode_rows_from(p, c, r, next, after) == spec_encode_frame(p, c, out));
    }
}

/// Every terminal row after the first is drawn on its own line: at the
/// point of the frame where row `r` (0-based) begins, the output moves the
/// cursor to the start of the 1-based row `r + 1` with `ESC [ r+1 ; 1 H`.
pub proof fn lemma_each_row_starts_on_its_own_line(p: Palette, c: CanvasView, out: Seq<u8>, r: int)
    requires
        1 <= r < terminal_rows(c),
    ensures
        exists|st: SgrState, mid: Seq<u8>| {
            let frame = spec_encode_frame(p, c, out);
            let cursor_move = seq![ESC, 0x5bu8] + decimal((r + 1) as nat) + seq![0x3bu8, 0x31u8, 0x48u8];
            &&& #[trigger] encode_rows_from(p, c, r, st, mid) == frame
            &&& frame.len() >= mid.len() + cursor_move.len()
            &&& frame.subrange(mid.len() as int, (mid.len() + cursor_move.len()) as int) == cursor_move
        },
{
    lemma_frame_reaches_row(p, c, out, r);
    let (st, mid) = choose|st: SgrState, mid: Seq<u8>| #[trigger] encode_rows_from(p, c, r, st, mid) == spec_encode_frame(p, c, out);
    let cursor_move = seq![ESC, 0x5bu8] + decimal((r + 1) as nat) + seq![0x3bu8, 0x31u8, 0x48u8];
    let moved = mid + row_start((r + 1) as nat);
    assert(row_start((r + 1) as nat) == cursor_move);
    let (after, next) = encode_row_from(p, c, r, 0, st, moved);
    lemma_row_extends(p, c, r, 0, st, moved);
    lemma_rows_extend(p, c, r + 1, next, after);
    let frame = spec_encode_frame(p, c, out);
    assert(frame == encode_rows_from(p, c, r + 1, next, after));
    assert(frame.take(moved.len() as int) =~= moved) by {
        assert(frame.take(after.len() as int) == after);
        assert(after.take(moved.len() as int) == moved);
        assert(frame.take(moved.len() as int) =~= after.take(moved.len() as int));
    }
    assert(frame.subrange(mid.len() as int, (mid.len() + cursor_move.len()) as int) =~= cursor_move) by {
        assert forall|j: int| 0 <= j < cursor_move.len() implies
            frame.subrange(mid.len() as int, (mid.len() + cursor_move.len()) as int)[j] == cursor_move[j] by {
            assert(frame[mid.len() + j] == frame.take(moved.len() as int)[mid.len() + j]);
            assert(moved[mid.len() + j] == cursor_move[j]);
        }
    }
}

} // verus!
