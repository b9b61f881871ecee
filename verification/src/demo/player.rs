//! Frame pacing, screen sizing and run statistics of the demo player.
//! Times are nanosecond counts measured by the caller.

use vstd::prelude::*;
use std::collections::VecDeque;
use crate::demo::canvas::{spec_checked_len, Canvas, CanvasError, PaletteIndex};

verus! {

/// Smallest terminal width the demo draws in.
pub const MIN_COLS: u16 = 60;

/// Smallest terminal height the demo draws in.
pub const MIN_ROWS: u16 = 24;

/// Most samples a statistics window keeps.
pub const SAMPLE_LIMIT: usize = 4096;

/// Frames due but not yet drawn: how far the frame the clock asks for is
/// ahead of the next frame to draw, never below zero.
pub fn skipped_frames(target_frame_index: u64, next_frame_index: u64) -> (r: u64)
    ensures
        r == (if target_frame_index > next_frame_index { target_frame_index - next_frame_index } else { 0 }),
{
    target_frame_index.saturating_sub(next_frame_index)
}

/// The canvas size for a terminal of `cols` x `rows` cells: one column is
/// left free, and each cell holds two pixels stacked vertically.
pub open spec fn spec_logical_canvas_size(cols: u16, rows: u16) -> (usize, usize) {
    ((if cols > 0 { cols - 1 } else { 0 }) as usize, (2 * rows) as usize)
}

pub fn logical_canvas_size(cols: u16, rows: u16) -> (r: (usize, usize))
    ensures
        r == spec_logical_canvas_size(cols, rows),
{
    let width: usize = if cols > 0 { cols as usize - 1 } else { 0 };
    (width, 2 * rows as usize)
}

/// The terminal size and the canvas drawn into it.
pub struct Screen {
    pub cols: u16,
    pub rows: u16,
    pub canvas: Canvas,
}

impl Screen {
    /// A screen for a `cols` x `rows` terminal with a background canvas.
    pub fn new(cols: u16, rows: u16) -> (r: Result<Screen, CanvasError>)
        ensures
            match r {
                Ok(s) => {
                    &&& s.cols == cols
                    &&& s.rows == rows
                    &&& s.canvas@.wf()
                    &&& s.canvas@.width == spec_logical_canvas_size(cols, rows).0
                    &&& s.canvas@.height == spec_logical_canvas_size(cols, rows).1
                    &&& s.canvas@.filled_with(PaletteIndex::Background)
                },
                Err(e) => spec_checked_len(spec_logical_canvas_size(cols, rows).0, spec_logical_canvas_size(cols, rows).1)
                    == Err::<usize, CanvasError>(e),
            },
    {
        let (width, height) = logical_canvas_size(cols, rows);
        match Canvas::new(width, height, PaletteIndex::Background) {
            Ok(canvas) => Ok(Screen { cols, rows, canvas }),
            Err(e) => Err(e),
        }
    }

    /// Follow a terminal resize; `true` when the size changed (the canvas
    /// is then reset to background).
    pub fn resize(&mut self, cols: u16, rows: u16) -> (r: Result<bool, CanvasError>)
        ensures
            old(self).cols == cols && old(self).rows == rows ==> r == Ok::<bool, CanvasError>(false) && *final(self) == *old(self),
            !(old(self).cols == cols && old(self).rows == rows) ==> {
                &&& final(self).cols == cols
                &&& final(self).rows == rows
                &&& match r {
                    Ok(changed) => {
                        &&& changed
                        &&& final(self).canvas@.wf()
                        &&& final(self).canvas@.width == spec_logical_canvas_size(cols, rows).0
                        &&& final(self).canvas@.height == spec_logical_canvas_size(cols, rows).1
                        &&& final(self).canvas@.filled_with(PaletteIndex::Background)
                    },
                    Err(e) => {
                        &&& spec_checked_len(spec_logical_canvas_size(cols, rows).0, spec_logical_canvas_size(cols, rows).1)
                            == Err::<usize, CanvasError>(e)
                        &&& final(self).canvas@ == old(self).canvas@
                    },
                }
            },
    {
        if self.cols == cols && self.rows == rows {
            return Ok(false);
        }
        self.cols = cols;
        self.rows = rows;
        let (width, height) = logical_canvas_size(cols, rows);
        match self.canvas.resize(width, height, PaletteIndex::Background) {
            Ok(()) => Ok(true),
            Err(e) => Err(e),
        }
    }

    /// Whether the terminal is below the minimum size.
    pub fn too_small(&self) -> (r: bool)
        ensures
            r == (self.cols < MIN_COLS || self.rows < MIN_ROWS),
    {
        self.cols < MIN_COLS || self.rows < MIN_ROWS
    }

    /// Initial size of the output buffer: 32 bytes per cell (at most the
    /// largest `usize`), at least 4 KiB.
    pub fn estimated_buffer_capacity(&self) -> (r: usize)
        ensures
            r == (if self.cols * self.rows * 32 > usize::MAX { usize::MAX as int } else if self.cols * self.rows * 32 > 4096 {
                self.cols * self.rows * 32
            } else {
                4096
            }),
    {
        assert((self.cols as int) * (self.rows as int) * 32 <= 0xffff * 0xffff * 32) by (nonlinear_arith)
            requires
                self.cols <= 0xffff,
                self.rows <= 0xffff,
        ;
        let cap = (self.cols as u64) * (self.rows as u64) * 32;
        if cap > 4096 {
            if cap > usize::MAX as u64 {
                usize::MAX
            } else {
                cap as usize
            }
        } else {
            4096
        }
    }
}

/// Up to `limit` most recent samples, oldest first.
pub struct SampleWindow {
    limit: usize,
    samples: VecDeque<u64>,
}

impl SampleWindow {
    pub closed spec fn spec_limit(&self) -> usize {
        self.limit
    }

    pub closed spec fn spec_samples(&self) -> Seq<u64> {
        self.samples@
    }

    /// An empty window keeping at most `limit` samples.
    pub fn new(limit: usize) -> (w: Self)
        ensures
            w.spec_limit() == limit,
            w.spec_samples() == Seq::<u64>::empty(),
    {
        SampleWindow { limit, samples: VecDeque::new() }
    }

    /// Add a sample, dropping the oldest when the window is full.
    pub fn push(&mut self, sample: u64)
        requires
            old(self).spec_samples().len() <= old(self).spec_limit(),
            old(self).spec_limit() > 0,
        ensures
            final(self).spec_limit() == old(self).spec_limit(),
            final(self).spec_samples() == (if old(self).spec_samples().len() == old(self).spec_limit() {
                old(self).spec_samples().drop_first().push(sample)
            } else {
                old(self).spec_samples().push(sample)
            }),
    {
        if self.samples.len() == self.limit {
            self.samples.pop_front();
        }
        self.samples.push_back(sample);
    }

    /// The samples, oldest first.
    pub fn samples(&self) -> (r: Vec<u64>)
        ensures
            r@ == self.spec_samples(),
    {
        let mut out: Vec<u64> = Vec::new();
        let mut i: usize = 0;
        while i < self.samples.len()
            invariant
                i <= self.samples@.len(),
                out@ == self.samples@.take(i as int),
            decreases self.samples@.len() - i,
        {
            out.push(self.samples[i]);
            i = i + 1;
            assert(out@ =~= self.samples@.take(i as int));
        }
        assert(self.samples@.take(i as int) =~= self.samples@);
        out
    }
}

/// Counters and timing samples of a demo run.
pub struct Metrics {
    target_fps: u32,
    rendered_frames: u64,
    dropped_frames: u64,
    bytes_written: u64,
    encode_times: SampleWindow,
    frame_times: SampleWindow,
    last_frame_start: Option<u64>,
}

/// The counters of a run.
pub struct MetricsView {
    pub target_fps: u32,
    pub rendered_frames: u64,
    pub dropped_frames: u64,
    pub bytes_written: u64,
    pub encode_times: Seq<u64>,
    pub frame_times: Seq<u64>,
    pub last_frame_start: Option<u64>,
}

/// `samples` with `sample` added, keeping at most `SAMPLE_LIMIT`.
pub open spec fn window_push(samples: Seq<u64>, sample: u64) -> Seq<u64> {
    if samples.len() == SAMPLE_LIMIT {
        samples.drop_first().push(sample)
    } else {
        samples.push(sample)
    }
}

impl View for Metrics {
    type V = MetricsView;

    closed spec fn view(&self) -> MetricsView {
        MetricsView {
            target_fps: self.target_fps,
            rendered_frames: self.rendered_frames,
            dropped_frames: self.dropped_frames,
            bytes_written: self.bytes_written,
            encode_times: self.encode_times.spec_samples(),
            frame_times: self.frame_times.spec_samples(),
            last_frame_start: self.last_frame_start,
        }
    }
}

impl Metrics {
    /// Both sample windows are within their limit.
    pub closed spec fn wf(&self) -> bool {
        &&& self.encode_times.spec_limit() == SAMPLE_LIMIT
        &&& self.frame_times.spec_limit() == SAMPLE_LIMIT
        &&& self.encode_times.spec_samples().len() <= SAMPLE_LIMIT
        &&& self.frame_times.spec_samples().len() <= SAMPLE_LIMIT
    }

    /// Empty statistics for a run aiming at `target_fps` (zero: uncapped).
    pub fn new(target_fps: u32) -> (m: Self)
        ensures
            m.wf(),
            m@ == (MetricsView {
                target_fps,
                rendered_frames: 0,
                dropped_frames: 0,
                bytes_written: 0,
                encode_times: Seq::empty(),
                frame_times: Seq::empty(),
                last_frame_start: None,
            }),
    {
        Metrics {
            target_fps,
            rendered_frames: 0,
            dropped_frames: 0,
            bytes_written: 0,
            encode_times: SampleWindow::new(SAMPLE_LIMIT),
            frame_times: SampleWindow::new(SAMPLE_LIMIT),
            last_frame_start: None,
        }
    }

    /// Note that a frame started at `now`; the time since the previous
    /// start becomes a frame time sample.
    pub fn record_frame_start(&mut self, now: u64)
        requires
            old(self).wf(),
        ensures
            final(self).wf(),
            final(self)@ == (MetricsView {
                last_frame_start: Some(now),
                frame_times: match old(self)@.last_frame_start {
                    Some(last) => window_push(old(self)@.frame_times, (if now > last { now - last } else { 0 }) as u64),
                    None => old(self)@.frame_times,
                },
                ..old(self)@
            }),
    {
        match self.last_frame_start {
            Some(last) => {
                self.frame_times.push(now.saturating_sub(last));
            },
            None => {},
        }
        self.last_frame_start = Some(now);
    }

    /// Count a rendered frame of `bytes` bytes that took `encode_time`
    /// nanoseconds to encode.
    pub fn record_frame(&mut self, bytes: usize, encode_time: u64)
        requires
            old(self).wf(),
            old(self)@.rendered_frames < u64::MAX,
        ensures
            final(self).wf(),
            final(self)@ == (MetricsView {
                rendered_frames: (old(self)@.rendered_frames + 1) as u64,
                bytes_written: (if old(self)@.bytes_written + bytes > u64::MAX { u64::MAX as int } else {
                    old(self)@.bytes_written + bytes
                }) as u64,
                encode_times: window_push(old(self)@.encode_times, encode_time),
                ..old(self)@
            }),
    {
        self.rendered_frames = self.rendered_frames + 1;
        self.bytes_written = self.bytes_written.saturating_add(bytes as u64);
        self.encode_times.push(encode_time);
    }

    /// Count frames that were skipped to keep pace.
    pub fn add_dropped_frames(&mut self, dropped: u64)
        ensures
            final(self).wf() == old(self).wf(),
            final(self)@ == (MetricsView {
                dropped_frames: (if old(self)@.dropped_frames + dropped > u64::MAX { u64::MAX as int } else {
                    old(self)@.dropped_frames + dropped
                }) as u64,
                ..old(self)@
            }),
    {
        self.dropped_frames = self.dropped_frames.saturating_add(dropped);
    }

    pub fn target_fps(&self) -> (r: u32)
        ensures
            r == self@.target_fps,
    {
        self.target_fps
    }

    pub fn rendered_frames(&self) -> (r: u64)
        ensures
            r == self@.rendered_frames,
    {
        self.rendered_frames
    }

    pub fn dropped_frames(&self) -> (r: u64)
        ensures
            r == self@.dropped_frames,
    {
        self.dropped_frames
    }

    pub fn bytes_written(&self) -> (r: u64)
        ensures
            r == self@.bytes_written,
    {
        self.bytes_written
    }

    /// Encode time samples in nanoseconds, oldest first.
    pub fn encode_times(&self) -> (r: Vec<u64>)
        ensures
            r@ == self@.encode_times,
    {
        self.encode_times.samples()
    }

    /// Frame time samples in nanoseconds, oldest first.
    pub fn frame_times(&self) -> (r: Vec<u64>)
        ensures
            r@ == self@.frame_times,
    {
        self.frame_times.samples()
    }
}

} // verus!
