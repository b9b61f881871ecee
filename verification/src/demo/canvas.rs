//! A fixed-size grid of palette indices that the demo draws into.

use vstd::prelude::*;

verus! {

/// The most logical pixels a canvas may hold.
pub const MAX_LOGICAL_PIXELS: usize = 8_000_000;

/// One of the four colors of the demo palette.
#[derive(Clone, Copy, Debug, PartialEq, Eq, Hash, Structural)]
pub enum PaletteIndex {
    Background,
    Foreground,
    Accent,
    MidTone,
}

/// The numeric code of a palette index (background 0 through mid tone 3).
pub open spec fn palette_code(p: PaletteIndex) -> u8 {
    match p {
        PaletteIndex::Background => 0,
        PaletteIndex::Foreground => 1,
        PaletteIndex::Accent => 2,
        PaletteIndex::MidTone => 3,
    }
}

/// The numeric code of a palette index.
pub fn palette_index_code(p: PaletteIndex) -> (r: u8)
    ensures
        r == palette_code(p),
{
    match p {
        PaletteIndex::Background => 0,
        PaletteIndex::Foreground => 1,
        PaletteIndex::Accent => 2,
        PaletteIndex::MidTone => 3,
    }
}

/// A 24-bit color.
#[derive(Clone, Copy, Debug, PartialEq, Eq, Structural)]
pub struct Rgb {
    pub r: u8,
    pub g: u8,
    pub b: u8,
}

impl Rgb {
    pub fn new(r: u8, g: u8, b: u8) -> (c: Self)
        ensures
            c == (Rgb { r, g, b }),
    {
        Rgb { r, g, b }
    }
}

/// The colors that the four palette indices stand for.
#[derive(Clone, Copy, Debug, PartialEq, Eq, Structural)]
pub struct Palette {
    pub background: Rgb,
    pub foreground: Rgb,
    pub accent: Rgb,
    pub mid_tone: Rgb,
}

impl Palette {
    pub open spec fn spec_color(self, index: PaletteIndex) -> Rgb {
        match index {
            PaletteIndex::Background => self.background,
            PaletteIndex::Foreground => self.foreground,
            PaletteIndex::Accent => self.accent,
            PaletteIndex::MidTone => self.mid_tone,
        }
    }

    /// The color that `index` stands for.
    pub fn color(self, index: PaletteIndex) -> (c: Rgb)
        ensures
            c == self.spec_color(index),
    {
        match index {
            PaletteIndex::Background => self.background,
            PaletteIndex::Foreground => self.foreground,
            PaletteIndex::Accent => self.accent,
            PaletteIndex::MidTone => self.mid_tone,
        }
    }
}

/// The demo's default palette.
pub open spec fn spec_default_palette() -> Palette {
    Palette {
        background: Rgb { r: 0x11, g: 0x11, b: 0x1b },
        foreground: Rgb { r: 0xcd, g: 0xd6, b: 0xf4 },
        accent: Rgb { r: 0xb4, g: 0xbe, b: 0xfe },
        mid_tone: Rgb { r: 0x6c, g: 0x70, b: 0x86 },
    }
}

/// The demo's default palette.
pub fn default_palette() -> (p: Palette)
    ensures
        p == spec_default_palette(),
{
    Palette {
        background: Rgb::new(0x11, 0x11, 0x1b),
        foreground: Rgb::new(0xcd, 0xd6, 0xf4),
        accent: Rgb::new(0xb4, 0xbe, 0xfe),
        mid_tone: Rgb::new(0x6c, 0x70, 0x86),
    }
}


/// Why a canvas could not be made.
#[derive(Clone, Copy, Debug, PartialEq, Eq, Structural)]
pub enum CanvasError {
    TooLarge { width: usize, height: usize },
}

/// The content of a canvas: its size and its pixels, row by row.
pub struct CanvasView {
    pub width: nat,
    pub height: nat,
    pub pixels: Seq<PaletteIndex>,
}

impl CanvasView {
    /// The pixel vector has one entry per pixel, and the canvas is within
    /// the size limit.
    pub open spec fn wf(self) -> bool {
        &&& self.pixels.len() == self.width * self.height
        &&& self.width * self.height <= MAX_LOGICAL_PIXELS
    }

    pub open spec fn in_bounds(self, x: int, y: int) -> bool {
        0 <= x < self.width && 0 <= y < self.height
    }

    /// Position of pixel `(x, y)` in the pixel sequence.
    pub open spec fn index_of(self, x: int, y: int) -> int {
        y * self.width + x
    }

    /// The pixel at `(x, y)`.
    pub open spec fn at(self, x: int, y: int) -> PaletteIndex {
        self.pixels[self.index_of(x, y)]
    }

    /// The canvas with pixel `(x, y)` set to `value`; unchanged off the canvas.
    pub open spec fn with_pixel(self, x: int, y: int, value: PaletteIndex) -> CanvasView {
        if self.in_bounds(x, y) {
            CanvasView { width: self.width, height: self.height, pixels: self.pixels.update(self.index_of(x, y), value) }
        } else {
            self
        }
    }

    /// `self` is `old` with exactly the pixels that `covers` selects set to `value`.
    pub open spec fn painted(self, old: CanvasView, covers: spec_fn(int, int) -> bool, value: PaletteIndex) -> bool {
        &&& self.width == old.width
        &&& self.height == old.height
        &&& self.pixels.len() == old.pixels.len()
        &&& forall|x: int, y: int| #[trigger] self.in_bounds(x, y) ==>
                self.at(x, y) == (if covers(x, y) { value } else { old.at(x, y) })
    }

    /// Every pixel is `value`.
    pub open spec fn filled_with(self, value: PaletteIndex) -> bool {
        forall|i: int| 0 <= i < self.pixels.len() ==> #[trigger] self.pixels[i] == value
    }
}

/// In-bounds pixels have distinct positions inside the pixel sequence.
pub proof fn lemma_index_of(w: int, h: int, x: int, y: int, a: int, b: int)
    requires
        0 <= x < w,
        0 <= y < h,
        0 <= a < w,
        0 <= b < h,
    ensures
        0 <= y * w + x < w * h,
        (y * w + x == b * w + a) <==> (x == a && y == b),
{
    assert(0 <= y * w + x < w * h) by (nonlinear_arith)
        requires
            0 <= x < w,
            0 <= y < h,
    ;
    if y < b {
        assert(y * w + x < b * w + a) by (nonlinear_arith)
            requires
                0 <= x < w,
                y < b,
                0 <= a,
        ;
    } else if b < y {
        assert(b * w + a < y * w + x) by (nonlinear_arith)
            requires
                0 <= a < w,
                b < y,
                0 <= x,
        ;
    }
}

/// Each side of a non-empty canvas is within the pixel limit.
pub proof fn lemma_sides_bounded(v: CanvasView)
    requires
        v.wf(),
        v.width > 0,
        v.height > 0,
    ensures
        v.width <= MAX_LOGICAL_PIXELS,
        v.height <= MAX_LOGICAL_PIXELS,
{
    assert(v.width <= v.width * v.height && v.height <= v.width * v.height) by (nonlinear_arith)
        requires
            v.width > 0,
            v.height > 0,
    ;
}

/// Setting one pixel changes that pixel alone.
pub proof fn lemma_with_pixel_at(v: CanvasView, x: int, y: int, value: PaletteIndex, a: int, b: int)
    requires
        v.wf(),
        v.in_bounds(x, y),
        v.in_bounds(a, b),
    ensures
        v.with_pixel(x, y, value).wf(),
        v.with_pixel(x, y, value).at(a, b) == (if a == x && b == y { value } else { v.at(a, b) }),
{
    lemma_index_of(v.width as int, v.height as int, x, y, a, b);
    lemma_index_of(v.width as int, v.height as int, a, b, a, b);
}

/// Number of positions of `s` that hold `value`.
pub open spec fn count_of(s: Seq<PaletteIndex>, value: PaletteIndex) -> nat
    decreases s.len(),
{
    if s.len() == 0 {
        0
    } else {
        count_of(s.drop_last(), value) + (if s.last() == value { 1nat } else { 0nat })
    }
}

/// 64-bit FNV-1a over the palette codes of `s`.
pub open spec fn fnv1a(s: Seq<PaletteIndex>) -> u64
    decreases s.len(),
{
    if s.len() == 0 {
        0xcbf2_9ce4_8422_2325u64
    } else {
        (((fnv1a(s.drop_last()) ^ (palette_code(s.last()) as u64)) as nat * 0x0000_0100_0000_01b3nat)
            % 0x1_0000_0000_0000_0000nat) as u64
    }
}

/// Whether pixel `(x, y)` lies in the rectangle at `(rx, ry)` of the given size.
pub open spec fn rect_covers(rx: i32, ry: i32, width: i32, height: i32, x: int, y: int) -> bool {
    &&& width > 0
    &&& height > 0
    &&& rx <= x < rx + width
    &&& ry <= y < ry + height
}

/// Whether pixel `(x, y)` lies in the disc of `radius` around `(cx, cy)`;
/// a radius whose square does not fit in 32 bits covers the whole square
/// around the center.
pub open spec fn circle_covers(cx: i32, cy: i32, radius: i32, x: int, y: int) -> bool {
    &&& radius >= 0
    &&& cx - radius <= x <= cx + radius
    &&& cy - radius <= y <= cy + radius
    &&& (radius * radius >= i32::MAX || (x - cx) * (x - cx) + (y - cy) * (y - cy) <= radius * radius)
}

/// The number of pixels of a `width` x `height` canvas, if it is within the limit.
pub open spec fn spec_checked_len(width: usize, height: usize) -> Result<usize, CanvasError> {
    if width * height <= MAX_LOGICAL_PIXELS {
        Ok((width * height) as usize)
    } else {
        Err(CanvasError::TooLarge { width, height })
    }
}

fn checked_len(width: usize, height: usize) -> (r: Result<usize, CanvasError>)
    ensures
        r == spec_checked_len(width, height),
{
    match width.checked_mul(height) {
        None => Err(CanvasError::TooLarge { width, height }),
        Some(len) => if len > MAX_LOGICAL_PIXELS {
            Err(CanvasError::TooLarge { width, height })
        } else {
            Ok(len)
        },
    }
}

fn filled_pixels(len: usize, fill: PaletteIndex) -> (r: Vec<PaletteIndex>)
    ensures
        r@.len() == len,
        forall|i: int| 0 <= i < len ==> #[trigger] r@[i] == fill,
{
    let mut pixels: Vec<PaletteIndex> = Vec::new();
    let mut i: usize = 0;
    while i < len
        invariant
            i <= len,
            pixels@.len() == i,
            forall|j: int| 0 <= j < i ==> #[trigger] pixels@[j] == fill,
        decreases len - i,
    {
        pixels.push(fill);
        i = i + 1;
    }
    pixels
}

/// A pixel position; drawing code rounds sub-pixel positions to these.
#[derive(Clone, Copy, Debug, PartialEq, Eq, Structural)]
pub struct PixelPoint {
    pub x: i32,
    pub y: i32,
}

impl PixelPoint {
    pub fn new(x: i32, y: i32) -> (p: Self)
        ensures
            p == (PixelPoint { x, y }),
    {
        PixelPoint { x, y }
    }
}

pub open spec fn abs_int(v: int) -> int {
    if v < 0 { -v } else { v }
}

/// Whether the line walk, `dx` steps across and `dd` steps down in all,
/// currently `i` and `j` steps in with error term `err`, visits step
/// `(k, l)` within `n` more moves. Each move compares twice the error with
/// `-dd` and `dx` to decide which of the two coordinates advance.
pub open spec fn line_visits(dx: int, dd: int, n: nat, i: int, j: int, err: int, k: int, l: int) -> bool
    decreases n,
{
    if k == i && l == j {
        true
    } else if n == 0 || (i == dx && j == dd) {
        false
    } else {
        let e2 = 2 * err;
        let i2 = if e2 >= -dd { i + 1 } else { i };
        let err1 = if e2 >= -dd { err - dd } else { err };
        let j2 = if e2 <= dx { j + 1 } else { j };
        let err2 = if e2 <= dx { err1 + dx } else { err1 };
        line_visits(dx, dd, (n - 1) as nat, i2, j2, err2, k, l)
    }
}

/// Whether the line from `(x0, y0)` to `(x1, y1)` passes through pixel `(a, b)`.
pub open spec fn line_covers(x0: i32, y0: i32, x1: i32, y1: i32, a: int, b: int) -> bool {
    let dx = abs_int(x1 - x0);
    let dd = abs_int(y1 - y0);
    let k = if x0 < x1 { a - x0 } else { x0 - a };
    let l = if y0 < y1 { b - y0 } else { y0 - b };
    line_visits(dx, dd, (dx + dd) as nat, 0, 0, dx - dd, k, l)
}

/// One move of the line walk never passes the end point, and some
/// coordinate advances.
pub proof fn lemma_line_step(dx: int, dd: int, i: int, j: int, err: int)
    requires
        0 <= i <= dx,
        0 <= j <= dd,
        !(i == dx && j == dd),
        err == dx * (1 + j) - dd * (1 + i),
    ensures
        2 * err >= -dd ==> i < dx,
        2 * err <= dx ==> j < dd,
        2 * err >= -dd || 2 * err <= dx,
        err - dd == dx * (1 + j) - dd * (1 + (i + 1)),
        err + dx == dx * (1 + (j + 1)) - dd * (1 + i),
        err - dd + dx == dx * (1 + (j + 1)) - dd * (1 + (i + 1)),
{
    assert(err - dd == dx * (1 + j) - dd * (1 + (i + 1))) by (nonlinear_arith)
        requires
            err == dx * (1 + j) - dd * (1 + i),
    ;
    assert(err + dx == dx * (1 + (j + 1)) - dd * (1 + i)) by (nonlinear_arith)
        requires
            err == dx * (1 + j) - dd * (1 + i),
    ;
    if i == dx {
        assert(2 * err < -dd) by (nonlinear_arith)
            requires
                err == dx * (1 + j) - dd * (1 + i),
                i == dx,
                0 <= j < dd,
                0 <= dx,
        ;
    }
    if j == dd {
        assert(2 * err > dx) by (nonlinear_arith)
            requires
                err == dx * (1 + j) - dd * (1 + i),
                j == dd,
                0 <= i < dx,
                0 <= dd,
        ;
    }
}

/// A grid of palette indices.
#[derive(Clone, Debug)]
pub struct Canvas {
    width: usize,
    height: usize,
    pixels: Vec<PaletteIndex>,
}

impl View for Canvas {
    type V = CanvasView;

    closed spec fn view(&self) -> CanvasView {
        CanvasView { width: self.width as nat, height: self.height as nat, pixels: self.pixels@ }
    }
}

impl Canvas {
    /// A `width` x `height` canvas filled with `fill`.
    pub fn new(width: usize, height: usize, fill: PaletteIndex) -> (r: Result<Canvas, CanvasError>)
        ensures
            match r {
                Ok(c) => {
                    &&& spec_checked_len(width, height) is Ok
                    &&& c@.wf()
                    &&& c@.width == width
                    &&& c@.height == height
                    &&& c@.filled_with(fill)
                },
                Err(e) => spec_checked_len(width, height) == Err::<usize, CanvasError>(e),
            },
    {
        let len = match checked_len(width, height) {
            Ok(len) => len,
            Err(e) => return Err(e),
        };
        Ok(Canvas { width, height, pixels: filled_pixels(len, fill) })
    }

    /// Change the size to `width` x `height` and fill every pixel with `fill`;
    /// a size over the limit leaves the canvas as it was.
    pub fn resize(&mut self, width: usize, height: usize, fill: PaletteIndex) -> (r: Result<(), CanvasError>)
        ensures
            match r {
                Ok(()) => {
                    &&& spec_checked_len(width, height) is Ok
                    &&& final(self)@.wf()
                    &&& final(self)@.width == width
                    &&& final(self)@.height == height
                    &&& final(self)@.filled_with(fill)
                },
                Err(e) => {
                    &&& spec_checked_len(width, height) == Err::<usize, CanvasError>(e)
                    &&& final(self)@ == old(self)@
                },
            },
    {
        let len = match checked_len(width, height) {
            Ok(len) => len,
            Err(e) => return Err(e),
        };
        self.width = width;
        self.height = height;
        self.pixels = filled_pixels(len, fill);
        Ok(())
    }

    /// Set every pixel to `fill`.
    pub fn clear(&mut self, fill: PaletteIndex)
        ensures
            final(self)@.width == old(self)@.width,
            final(self)@.height == old(self)@.height,
            final(self)@.pixels.len() == old(self)@.pixels.len(),
            final(self)@.filled_with(fill),
    {
        let mut i: usize = 0;
        while i < self.pixels.len()
            invariant
                i <= self.pixels@.len(),
                self.pixels@.len() == old(self).pixels@.len(),
                self.width == old(self).width,
                self.height == old(self).height,
                forall|j: int| 0 <= j < i ==> #[trigger] self.pixels@[j] == fill,
            decreases self.pixels@.len() - i,
        {
            self.pixels.set(i, fill);
            i = i + 1;
        }
    }

    pub fn width(&self) -> (r: usize)
        ensures
            r == self@.width,
    {
        self.width
    }

    pub fn height(&self) -> (r: usize)
        ensures
            r == self@.height,
    {
        self.height
    }

    /// Whether the canvas has no pixel.
    pub fn is_empty(&self) -> (r: bool)
        ensures
            r == (self@.width == 0 || self@.height == 0),
    {
        self.width == 0 || self.height == 0
    }

    /// Position of `(x, y)` in the pixel vector, if it is on the canvas.
    fn offset(&self, x: i32, y: i32) -> (r: Option<usize>)
        requires
            self@.wf(),
        ensures
            r is Some <==> self@.in_bounds(x as int, y as int),
            r matches Some(i) ==> i == self@.index_of(x as int, y as int) && i < self@.pixels.len(),
    {
        if x < 0 || y < 0 {
            return None;
        }
        let x = x as usize;
        let y = y as usize;
        if x >= self.width || y >= self.height {
            return None;
        }
        proof {
            lemma_index_of(self.width as int, self.height as int, x as int, y as int, x as int, y as int);
        }
        Some(y * self.width + x)
    }

    /// Set pixel `(x, y)` to `value`; nothing happens off the canvas.
    pub fn set(&mut self, x: i32, y: i32, value: PaletteIndex)
        requires
            old(self)@.wf(),
        ensures
            final(self)@ == old(self)@.with_pixel(x as int, y as int, value),
            final(self)@.wf(),
    {
        match self.offset(x, y) {
            Some(index) => {
                self.pixels.set(index, value);
                proof {
                    lemma_index_of(self.width as int, self.height as int, x as int, y as int, x as int, y as int);
                }
            },
            None => {},
        }
    }

    fn set_at(&mut self, x: usize, y: usize, value: PaletteIndex)
        requires
            old(self)@.wf(),
            old(self)@.in_bounds(x as int, y as int),
        ensures
            final(self)@ == old(self)@.with_pixel(x as int, y as int, value),
            final(self)@.wf(),
    {
        proof {
            lemma_index_of(self.width as int, self.height as int, x as int, y as int, x as int, y as int);
        }
        self.pixels.set(y * self.width + x, value);
    }

    /// The pixel at `(x, y)`, if it is on the canvas.
    pub fn get(&self, x: i32, y: i32) -> (r: Option<PaletteIndex>)
        requires
            self@.wf(),
        ensures
            r == (if self@.in_bounds(x as int, y as int) { Some(self@.at(x as int, y as int)) } else { None }),
    {
        match self.offset(x, y) {
            Some(index) => Some(self.pixels[index]),
            None => None,
        }
    }

    /// The pixel at `(x, y)`, background off the canvas.
    pub fn pixel_at(&self, x: usize, y: usize) -> (r: PaletteIndex)
        requires
            self@.wf(),
        ensures
            r == (if self@.in_bounds(x as int, y as int) { self@.at(x as int, y as int) } else { PaletteIndex::Background }),
    {
        if x >= self.width || y >= self.height {
            return PaletteIndex::Background;
        }
        proof {
            lemma_index_of(self.width as int, self.height as int, x as int, y as int, x as int, y as int);
        }
        self.pixels[y * self.width + x]
    }

    /// Number of pixels holding `value`.
    pub fn count(&self, value: PaletteIndex) -> (r: usize)
        ensures
            r == count_of(self@.pixels, value),
    {
        let mut n: usize = 0;
        let mut i: usize = 0;
        while i < self.pixels.len()
            invariant
                i <= self.pixels@.len(),
                n == count_of(self.pixels@.take(i as int), value),
                n <= i,
            decreases self.pixels@.len() - i,
        {
            assert(self.pixels@.take(i + 1).drop_last() =~= self.pixels@.take(i as int));
            if self.pixels[i] == value {
                n = n + 1;
            }
            i = i + 1;
        }
        assert(self.pixels@.take(i as int) =~= self.pixels@);
        n
    }

    /// FNV-1a hash of the pixels' palette codes.
    pub fn content_hash(&self) -> (r: u64)
        ensures
            r == fnv1a(self@.pixels),
    {
        let mut hash: u64 = 0xcbf2_9ce4_8422_2325;
        let mut i: usize = 0;
        while i < self.pixels.len()
            invariant
                i <= self.pixels@.len(),
                hash == fnv1a(self.pixels@.take(i as int)),
            decreases self.pixels@.len() - i,
        {
            assert(self.pixels@.take(i + 1).drop_last() =~= self.pixels@.take(i as int));
            hash = hash ^ (palette_index_code(self.pixels[i]) as u64);
            hash = hash.wrapping_mul(0x0000_0100_0000_01b3);
            i = i + 1;
        }
        assert(self.pixels@.take(i as int) =~= self.pixels@);
        hash
    }

    /// Fill the rectangle at `(x, y)` of the given size, clipped to the canvas.
    pub fn fill_rect(&mut self, x: i32, y: i32, width: i32, height: i32, value: PaletteIndex)
        requires
            old(self)@.wf(),
        ensures
            final(self)@.wf(),
            final(self)@.painted(old(self)@, |a: int, b: int| rect_covers(x, y, width, height, a, b), value),
    {
        if width <= 0 || height <= 0 || self.is_empty() {
            return;
        }
        proof {
            lemma_sides_bounded(self@);
        }
        let x0: usize = if x < 0 { 0 } else { x as usize };
        let y0: usize = if y < 0 { 0 } else { y as usize };
        let xe = x as i64 + width as i64;
        let ye = y as i64 + height as i64;
        let x1: usize = if xe < 0 { 0 } else if xe > self.width as i64 { self.width } else { xe as usize };
        let y1: usize = if ye < 0 { 0 } else if ye > self.height as i64 { self.height } else { ye as usize };
        if x0 >= x1 || y0 >= y1 {
            return;
        }
        assert(x0 == (if x < 0 { 0 } else { x as int }));
        assert(x1 == (if x + width < 0 { 0 } else if x + width > self@.width { self@.width as int } else { x + width }));
        assert(y0 == (if y < 0 { 0 } else { y as int }));
        assert(y1 == (if y + height < 0 { 0 } else if y + height > self@.height { self@.height as int } else { y + height }));
        let ghost before = self@;
        let mut row: usize = y0;
        while row < y1
            invariant
                self@.wf(),
                self@.width == before.width,
                self@.height == before.height,
                before.wf(),
                x1 <= before.width,
                y1 <= before.height,
                y0 <= row <= y1,
                x0 < x1,
                forall|a: int, b: int| #[trigger] self@.in_bounds(a, b) ==> self@.at(a, b) == (
                    if y0 <= b < row && x0 <= a < x1 { value } else { before.at(a, b) }),
            decreases y1 - row,
        {
            let mut col: usize = x0;
            while col < x1
                invariant
                    self@.wf(),
                    self@.width == before.width,
                    self@.height == before.height,
                    before.wf(),
                    x1 <= before.width,
                    y1 <= before.height,
                    y0 <= row < y1,
                    x0 <= col <= x1,
                    forall|a: int, b: int| #[trigger] self@.in_bounds(a, b) ==> self@.at(a, b) == (
                        if (y0 <= b < row && x0 <= a < x1) || (b == row && x0 <= a < col) { value } else { before.at(a, b) }),
                decreases x1 - col,
            {
                let ghost prev = self@;
                self.set_at(col, row, value);
                assert forall|a: int, b: int| #[trigger] self@.in_bounds(a, b) implies self@.at(a, b) == (
                    if (y0 <= b < row && x0 <= a < x1) || (b == row && x0 <= a < col + 1) { value } else { before.at(a, b) })
                by {
                    assert(prev.in_bounds(a, b));
                    lemma_with_pixel_at(prev, col as int, row as int, value, a, b);
                }
                col = col + 1;
            }
            row = row + 1;
        }
        assert forall|a: int, b: int| #[trigger] self@.in_bounds(a, b) implies self@.at(a, b) == (
            if rect_covers(x, y, width, height, a, b) { value } else { before.at(a, b) })
        by {
            assert((y0 <= b < y1 && x0 <= a < x1) == rect_covers(x, y, width, height, a, b));
        }
    }

    /// Fill the disc of `radius` around `(cx, cy)`, clipped to the canvas.
    pub fn fill_circle(&mut self, cx: i32, cy: i32, radius: i32, value: PaletteIndex)
        requires
            old(self)@.wf(),
        ensures
            final(self)@.wf(),
            final(self)@.painted(old(self)@, |a: int, b: int| circle_covers(cx, cy, radius, a, b), value),
    {
        if radius < 0 || self.is_empty() {
            return;
        }
        proof {
            lemma_sides_bounded(self@);
        }
        let r = radius as i64;
        assert(r * r <= 0x7fff_ffff * 0x7fff_ffff) by (nonlinear_arith)
            requires
                0 <= r <= 0x7fff_ffff,
        ;
        let cxl = cx as i64;
        let cyl = cy as i64;
        let r2 = r * r;
        let big = r2 >= 0x7fff_ffff;
        let w = self.width as i64;
        let h = self.height as i64;
        let xlo: i64 = if cxl - r < 0 { 0 } else { cxl - r };
        let xhi: i64 = if cxl + r > w - 1 { w - 1 } else { cxl + r };
        let ylo: i64 = if cyl - r < 0 { 0 } else { cyl - r };
        let yhi: i64 = if cyl + r > h - 1 { h - 1 } else { cyl + r };
        if xlo > xhi || ylo > yhi {
            assert forall|a: int, b: int| #[trigger] self@.in_bounds(a, b) implies !circle_covers(cx, cy, radius, a, b) by {}
            return;
        }
        let ghost before = self@;
        let mut y: i64 = ylo;
        while y <= yhi
            invariant
                self@.wf(),
                self@.width == before.width,
                self@.height == before.height,
                before.wf(),
                w == before.width,
                h == before.height,
                0 <= xlo <= xhi < w,
                0 <= ylo <= yhi < h,
                ylo <= y <= yhi + 1,
                r == radius,
                r2 == r * r,
                big == (r2 >= 0x7fff_ffff),
                cxl == cx,
                cyl == cy,
                xlo == (if cx - radius < 0 { 0 } else { cx - radius }),
                xhi == (if cx + radius > w - 1 { w - 1 } else { cx + radius }),
                ylo == (if cy - radius < 0 { 0 } else { cy - radius }),
                yhi == (if cy + radius > h - 1 { h - 1 } else { cy + radius }),
                forall|a: int, b: int| #[trigger] self@.in_bounds(a, b) ==> self@.at(a, b) == (
                    if b < y && circle_covers(cx, cy, radius, a, b) { value } else { before.at(a, b) }),
            decreases yhi + 1 - y,
        {
            let mut x: i64 = xlo;
            while x <= xhi
                invariant
                    self@.wf(),
                    self@.width == before.width,
                    self@.height == before.height,
                    before.wf(),
                    w == before.width,
                    h == before.height,
                    0 <= xlo <= xhi < w,
                    0 <= ylo <= yhi < h,
                    ylo <= y <= yhi,
                    xlo <= x <= xhi + 1,
                    r == radius,
                    r2 == r * r,
                    big == (r2 >= 0x7fff_ffff),
                    cxl == cx,
                    cyl == cy,
                    xlo == (if cx - radius < 0 { 0 } else { cx - radius }),
                    xhi == (if cx + radius > w - 1 { w - 1 } else { cx + radius }),
                    ylo == (if cy - radius < 0 { 0 } else { cy - radius }),
                    yhi == (if cy + radius > h - 1 { h - 1 } else { cy + radius }),
                    forall|a: int, b: int| #[trigger] self@.in_bounds(a, b) ==> self@.at(a, b) == (
                        if (b < y || (b == y && a < x)) && circle_covers(cx, cy, radius, a, b) { value } else { before.at(a, b) }),
                decreases xhi + 1 - x,
            {
                let dx = x - cxl;
                let dy = y - cyl;
                let inside = if big {
                    true
                } else {
                    assert(-r <= dx <= r && -r <= dy <= r);
                    assert(dx * dx <= r * r && dy * dy <= r * r) by (nonlinear_arith)
                        requires
                            -r <= dx <= r,
                            -r <= dy <= r,
                    ;
                    assert(r2 < 0x7fff_ffff);
                    assert(0 <= dx * dx < 0x7fff_ffff && 0 <= dy * dy < 0x7fff_ffff) by (nonlinear_arith)
                        requires
                            dx * dx <= r2,
                            dy * dy <= r2,
                            r2 < 0x7fff_ffff,
                    ;
                    dx * dx + dy * dy <= r2
                };
                assert(inside == circle_covers(cx, cy, radius, x as int, y as int));
                if inside {
                    let ghost prev = self@;
                    self.set_at(x as usize, y as usize, value);
                    assert forall|a: int, b: int| #[trigger] self@.in_bounds(a, b) implies self@.at(a, b) == (
                        if (b < y || (b == y && a < x + 1)) && circle_covers(cx, cy, radius, a, b) { value } else { before.at(a, b) })
                    by {
                        assert(prev.in_bounds(a, b));
                        lemma_with_pixel_at(prev, x as int, y as int, value, a, b);
                    }
                }
                x = x + 1;
            }
            y = y + 1;
        }
        assert forall|a: int, b: int| #[trigger] self@.in_bounds(a, b) implies self@.at(a, b) == (
            if circle_covers(cx, cy, radius, a, b) { value } else { before.at(a, b) })
        by {
            if circle_covers(cx, cy, radius, a, b) {
                assert(b < y);
            }
        }
    }

    /// Draw the line from `start` to `end`, both end points included.
    pub fn draw_line(&mut self, start: PixelPoint, end: PixelPoint, value: PaletteIndex)
        requires
            old(self)@.wf(),
        ensures
            final(self)@.wf(),
            final(self)@.painted(old(self)@, |a: int, b: int| line_covers(start.x, start.y, end.x, end.y, a, b), value),
    {
        let x0 = start.x as i64;
        let y0 = start.y as i64;
        let x1 = end.x as i64;
        let y1 = end.y as i64;
        let dx: i64 = if x1 >= x0 { x1 - x0 } else { x0 - x1 };
        let dd: i64 = if y1 >= y0 { y1 - y0 } else { y0 - y1 };
        let sx: i64 = if x0 < x1 { 1 } else { -1 };
        let sy: i64 = if y0 < y1 { 1 } else { -1 };
        let mut error: i64 = dx - dd;
        let mut x: i64 = x0;
        let mut y: i64 = y0;
        let ghost before = self@;
        let ghost mut done: Set<(int, int)> = Set::empty();
        let ghost mut n: nat = (dx + dd) as nat;
        let ghost mut i: int = 0;
        let ghost mut j: int = 0;
        let ghost e0: int = dx - dd;
        let ghost rel = |a: int, b: int| ((if x0 < x1 { a - x0 } else { x0 - a }), (if y0 < y1 { b - y0 } else { y0 - b }));
        assert(error == dx * (1 + j) - dd * (1 + i)) by (nonlinear_arith)
            requires
                i == 0,
                j == 0,
                error == dx - dd,
        ;
        loop
            invariant
                self@.wf(),
                self@.width == before.width,
                self@.height == before.height,
                before.wf(),
                dx == abs_int(end.x - start.x),
                dd == abs_int(end.y - start.y),
                x0 == start.x,
                y0 == start.y,
                x1 == end.x,
                y1 == end.y,
                sx == (if x0 < x1 { 1int } else { -1int }),
                sy == (if y0 < y1 { 1int } else { -1int }),
                e0 == dx - dd,
                0 <= i <= dx,
                0 <= j <= dd,
                dx <= 0xffff_ffff,
                dd <= 0xffff_ffff,
                -2 * dd <= error <= 2 * dx,
                n >= (dx - i) + (dd - j),
                error == dx * (1 + j) - dd * (1 + i),
                x == (if x0 < x1 { x0 + i } else { x0 - i }),
                y == (if y0 < y1 { y0 + j } else { y0 - j }),
                rel == (|a: int, b: int| ((if x0 < x1 { a - x0 } else { x0 - a }), (if y0 < y1 { b - y0 } else { y0 - b }))),
                forall|k: int, l: int| #[trigger] line_visits(dx as int, dd as int, (dx + dd) as nat, 0, 0, e0, k, l)
                    == (done.contains((k, l)) || line_visits(dx as int, dd as int, n, i, j, error as int, k, l)),
                forall|a: int, b: int| #[trigger] self@.in_bounds(a, b) ==> self@.at(a, b) == (
                    if done.contains(rel(a, b)) { value } else { before.at(a, b) }),
            ensures
                self@.wf(),
                self@.width == before.width,
                self@.height == before.height,
                rel == (|a: int, b: int| ((if x0 < x1 { a - x0 } else { x0 - a }), (if y0 < y1 { b - y0 } else { y0 - b }))),
                dx == abs_int(end.x - start.x),
                dd == abs_int(end.y - start.y),
                e0 == dx - dd,
                x0 == start.x,
                y0 == start.y,
                x1 == end.x,
                y1 == end.y,
                forall|k: int, l: int| #[trigger] line_visits(dx as int, dd as int, (dx + dd) as nat, 0, 0, e0, k, l)
                    == done.contains((k, l)),
                forall|a: int, b: int| #[trigger] self@.in_bounds(a, b) ==> self@.at(a, b) == (
                    if done.contains(rel(a, b)) { value } else { before.at(a, b) }),
            decreases (dx - i) + (dd - j),
        {
            let ghost prev = self@;
            self.set(x as i32, y as i32, value);
            proof {
                assert forall|a: int, b: int| #[trigger] self@.in_bounds(a, b) implies self@.at(a, b) == (
                    if done.insert((i, j)).contains(rel(a, b)) { value } else { before.at(a, b) })
                by {
                    assert(prev.in_bounds(a, b));
                    if prev.in_bounds(x as int, y as int) {
                        lemma_with_pixel_at(prev, x as int, y as int, value, a, b);
                    }
                    assert((rel(a, b) == (i, j)) == (a == x && b == y));
                }
                assert forall|k: int, l: int| #[trigger] line_visits(dx as int, dd as int, (dx + dd) as nat, 0, 0, e0, k, l)
                    == (done.insert((i, j)).contains((k, l)) || (!(k == i && l == j) && line_visits(dx as int, dd as int, n, i, j, error as int, k, l)))
                by {}
                done = done.insert((i, j));
            }
            if x == x1 && y == y1 {
                proof {
                    assert forall|k: int, l: int| #[trigger] line_visits(dx as int, dd as int, (dx + dd) as nat, 0, 0, e0, k, l)
                        == done.contains((k, l))
                    by {}
                }
                break;
            }
            proof {
                lemma_line_step(dx as int, dd as int, i, j, error as int);
            }
            let e2 = 2 * error;
            let ghost i2 = if e2 >= -dd { i + 1 } else { i };
            let ghost j2 = if e2 <= dx { j + 1 } else { j };
            let ghost err2 = if e2 <= dx { (if e2 >= -dd { error - dd } else { error as int }) + dx } else {
                if e2 >= -dd { error - dd } else { error as int }
            };
            proof {
                assert forall|k: int, l: int| #[trigger] line_visits(dx as int, dd as int, (dx + dd) as nat, 0, 0, e0, k, l)
                    == (done.contains((k, l)) || line_visits(dx as int, dd as int, (n - 1) as nat, i2, j2, err2, k, l))
                by {
                    assert(line_visits(dx as int, dd as int, n, i, j, error as int, k, l)
                        == ((k == i && l == j) || line_visits(dx as int, dd as int, (n - 1) as nat, i2, j2, err2, k, l)));
                }
            }
            if e2 >= -dd {
                error = error - dd;
                x = x + sx;
            }
            if e2 <= dx {
                error = error + dx;
                y = y + sy;
            }
            proof {
                n = (n - 1) as nat;
                i = i2;
                j = j2;
            }
        }
        assert forall|a: int, b: int| #[trigger] self@.in_bounds(a, b) implies self@.at(a, b) == (
            if line_covers(start.x, start.y, end.x, end.y, a, b) { value } else { before.at(a, b) })
        by {
            let kl = rel(a, b);
            assert(line_covers(start.x, start.y, end.x, end.y, a, b)
                == line_visits(dx as int, dd as int, (dx + dd) as nat, 0, 0, e0, kl.0, kl.1));
        }
    }
}

/// A pixel set on the canvas reads back as the value written.
pub proof fn lemma_set_then_get(v: CanvasView, x: int, y: int, value: PaletteIndex)
    requires
        v.wf(),
        v.in_bounds(x, y),
    ensures
        v.with_pixel(x, y, value).wf(),
        v.with_pixel(x, y, value).at(x, y) == value,
        forall|a: int, b: int| v.in_bounds(a, b) && !(a == x && b == y) ==>
            #[trigger] v.with_pixel(x, y, value).at(a, b) == v.at(a, b),
{
    lemma_with_pixel_at(v, x, y, value, x, y);
    assert forall|a: int, b: int| v.in_bounds(a, b) && !(a == x && b == y) implies
        #[trigger] v.with_pixel(x, y, value).at(a, b) == v.at(a, b) by {
        lemma_with_pixel_at(v, x, y, value, a, b);
    }
}

/// Setting a pixel off the canvas changes nothing.
pub proof fn lemma_set_outside_is_noop(v: CanvasView, x: int, y: int, value: PaletteIndex)
    requires
        !v.in_bounds(x, y),
    ensures
        v.with_pixel(x, y, value) == v,
{
}

/// A sequence filled with one value counts that value at every position.
pub proof fn lemma_count_filled(s: Seq<PaletteIndex>, value: PaletteIndex)
    requires
        forall|i: int| 0 <= i < s.len() ==> #[trigger] s[i] == value,
    ensures
        count_of(s, value) == s.len(),
    decreases s.len(),
{
    if s.len() > 0 {
        lemma_count_filled(s.drop_last(), value);
    }
}

/// After `clear`, every one of the `width * height` pixels holds the fill.
pub proof fn lemma_cleared_canvas_count(v: CanvasView, fill: PaletteIndex)
    requires
        v.wf(),
        v.filled_with(fill),
    ensures
        count_of(v.pixels, fill) == v.width * v.height,
{
    lemma_count_filled(v.pixels, fill);
}
} // verus!
