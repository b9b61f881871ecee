//! Inline images: splitting iTerm2 image commands out of the PTY stream,
//! decoding PNG and raw Kitty payloads under configured limits, and sizing
//! image placements in terminal cells.

use vstd::prelude::*;
use vstd::utf8::{decode_utf8, valid_utf8};
use vstd::string::StringSliceAdditionalSpecFns;
use vstd::utf8::encode_utf8;
use crate::proto::iterm2::{
    base64_standard_decode, decode_base64_standard, ImageDimension, InlineImageSequence,
};
use crate::proto::kitty::KittyFormat;
use crate::term::grid::{
    GridPoint, ImageId, ImagePixelOffset, ImagePlacement, ImagePlacementId, ImageSourceRect,
    ImageZIndex,
};
use crate::text::{str_from_utf8, ESC};

verus! {

/// Eight-bit OSC introducer.
pub const OSC: u8 = 0x9d;
/// Eight-bit string terminator.
pub const ST: u8 = 0x9c;
/// Bell, the other OSC terminator.
pub const BEL: u8 = 0x07;

/// `1337;File=`, the start of an iTerm2 image command.
pub open spec fn it2_prefix() -> Seq<u8> {
    seq![0x31u8, 0x33u8, 0x33u8, 0x37u8, 0x3bu8, 0x46u8, 0x69u8, 0x6cu8, 0x65u8, 0x3du8]
}

/// Limits applied to inline image payloads and decoded images.
#[derive(Clone, Copy, Debug, Eq, PartialEq, Structural)]
pub struct ImageLimits {
    pub max_encoded_bytes: usize,
    pub max_decoded_bytes: usize,
    pub max_width: u32,
    pub max_height: u32,
    pub max_pixels: u64,
    pub max_images: usize,
    pub max_gpu_bytes: usize,
}

/// Why an inline image was refused.
#[derive(Clone, Copy, Debug, Eq, PartialEq, Structural)]
pub enum InlineImageError {
    EncodedTooLarge,
    CompressedTooLarge,
    InvalidBase64,
    InvalidPng,
    InvalidPayloadLength,
    ZeroDimension,
    DimensionLimit,
    PixelLimit,
    DecodedTooLarge,
    SizeOverflow,
    ZeroCellSize,
    InvalidSourceRectangle,
    InvalidPixelOffset,
}

impl InlineImageError {
    /// Human-readable description of the error.
    pub fn message(&self) -> (r: &'static str)
        ensures
            match *self {
                InlineImageError::EncodedTooLarge => r@ == "encoded image payload exceeds the configured limit"@,
                InlineImageError::CompressedTooLarge => r@ == "decoded compressed image exceeds the configured limit"@,
                InlineImageError::InvalidBase64 => r@ == "image payload is not valid base64"@,
                InlineImageError::InvalidPng => r@ == "image payload is not a valid PNG"@,
                InlineImageError::InvalidPayloadLength => r@ == "raw image payload length does not match its dimensions"@,
                InlineImageError::ZeroDimension => r@ == "image has a zero dimension"@,
                InlineImageError::DimensionLimit => r@ == "image dimensions exceed the configured limit"@,
                InlineImageError::PixelLimit => r@ == "image pixel count exceeds the configured limit"@,
                InlineImageError::DecodedTooLarge => r@ == "decoded RGBA image exceeds the configured limit"@,
                InlineImageError::SizeOverflow => r@ == "image size calculation overflowed"@,
                InlineImageError::ZeroCellSize => r@ == "terminal cell size is zero"@,
                InlineImageError::InvalidSourceRectangle => r@ == "image source rectangle does not intersect the image"@,
                InlineImageError::InvalidPixelOffset => r@ == "image pixel offset is outside the anchor cell"@,
            },
    {
        match self {
            InlineImageError::EncodedTooLarge => "encoded image payload exceeds the configured limit",
            InlineImageError::CompressedTooLarge => "decoded compressed image exceeds the configured limit",
            InlineImageError::InvalidBase64 => "image payload is not valid base64",
            InlineImageError::InvalidPng => "image payload is not a valid PNG",
            InlineImageError::InvalidPayloadLength => "raw image payload length does not match its dimensions",
            InlineImageError::ZeroDimension => "image has a zero dimension",
            InlineImageError::DimensionLimit => "image dimensions exceed the configured limit",
            InlineImageError::PixelLimit => "image pixel count exceeds the configured limit",
            InlineImageError::DecodedTooLarge => "decoded RGBA image exceeds the configured limit",
            InlineImageError::SizeOverflow => "image size calculation overflowed",
            InlineImageError::ZeroCellSize => "terminal cell size is zero",
            InlineImageError::InvalidSourceRectangle => "image source rectangle does not intersect the image",
            InlineImageError::InvalidPixelOffset => "image pixel offset is outside the anchor cell",
        }
    }
}

// ---------------------------------------------------------------------
// Splitting iTerm2 image commands out of the PTY stream.
// ---------------------------------------------------------------------

/// One piece of a scanned PTY chunk.
#[derive(Clone, Copy, Debug, Eq, PartialEq)]
pub enum PtyStreamItem<'a> {
    Text(&'a [u8]),
    InlineImage(&'a str),
    InvalidInlineImage,
}

/// Contents of a scanned piece.
pub enum ScanItemView {
    Text(Seq<u8>),
    InlineImage(Seq<char>),
    InvalidInlineImage,
}

impl<'a> View for PtyStreamItem<'a> {
    type V = ScanItemView;

    open spec fn view(&self) -> ScanItemView {
        match self {
            PtyStreamItem::Text(bytes) => ScanItemView::Text(bytes@),
            PtyStreamItem::InlineImage(text) => ScanItemView::InlineImage(text@),
            PtyStreamItem::InvalidInlineImage => ScanItemView::InvalidInlineImage,
        }
    }
}

/// The pieces of a chunk and how many of its bytes they cover; the rest
/// (an unterminated OSC) waits for more input.
#[derive(Debug, Eq, PartialEq)]
pub struct PtyStreamScan<'a> {
    pub items: Vec<PtyStreamItem<'a>>,
    pub consumed: usize,
}

pub open spec fn items_view<'a>(items: Seq<PtyStreamItem<'a>>) -> Seq<ScanItemView> {
    items.map_values(|item: PtyStreamItem<'a>| item@)
}

/// Length of the OSC introducer at `i`: `OSC` alone, or `ESC ]`.
pub open spec fn osc_introducer_len(s: Seq<u8>, i: int) -> Option<int> {
    if s[i] == OSC {
        Some(1)
    } else if s[i] == ESC && i + 1 < s.len() && s[i + 1] == 0x5du8 {
        Some(2)
    } else {
        None
    }
}

/// Length of the OSC terminator at `i`: `BEL`, `ST`, or `ESC \`.
pub open spec fn osc_terminator_len(s: Seq<u8>, i: int) -> Option<int> {
    if s[i] == BEL || s[i] == ST {
        Some(1)
    } else if s[i] == ESC && i + 1 < s.len() && s[i + 1] == 0x5cu8 {
        Some(2)
    } else {
        None
    }
}

/// The first OSC introducer at or after `from`: where it starts and where
/// its payload begins.
pub open spec fn spec_find_osc_start(s: Seq<u8>, from: int) -> Option<(int, int)>
    decreases s.len() - from,
{
    if from < 0 || from >= s.len() {
        None
    } else {
        match osc_introducer_len(s, from) {
            Some(k) => Some((from, from + k)),
            None => spec_find_osc_start(s, from + 1),
        }
    }
}

/// The first OSC terminator at or after `from`: where the payload ends and
/// where the sequence ends.
pub open spec fn spec_find_osc_end(s: Seq<u8>, from: int) -> Option<(int, int)>
    decreases s.len() - from,
{
    if from < 0 || from >= s.len() {
        None
    } else {
        match osc_terminator_len(s, from) {
            Some(k) => Some((from, from + k)),
            None => spec_find_osc_end(s, from + 1),
        }
    }
}

pub proof fn lemma_find_osc_start_bounds(s: Seq<u8>, from: int)
    requires
        0 <= from,
    ensures
        match spec_find_osc_start(s, from) {
            Some((start, payload)) => from <= start < payload <= s.len()
                && osc_introducer_len(s, start) == Some(payload - start)
                && forall|j: int| from <= j < start ==> osc_introducer_len(s, j) is None,
            None => forall|j: int| from <= j < s.len() ==> osc_introducer_len(s, j) is None,
        },
    decreases s.len() - from,
{
    if from < s.len() && osc_introducer_len(s, from) is None {
        lemma_find_osc_start_bounds(s, from + 1);
    }
}

pub proof fn lemma_find_osc_end_bounds(s: Seq<u8>, from: int)
    requires
        0 <= from,
    ensures
        match spec_find_osc_end(s, from) {
            Some((end, next)) => from <= end < next <= s.len()
                && osc_terminator_len(s, end) == Some(next - end)
                && forall|j: int| from <= j < end ==> osc_terminator_len(s, j) is None,
            None => forall|j: int| from <= j < s.len() ==> osc_terminator_len(s, j) is None,
        },
    decreases s.len() - from,
{
    if from < s.len() && osc_terminator_len(s, from) is None {
        lemma_find_osc_end_bounds(s, from + 1);
    }
}

/// What a complete OSC sequence becomes: an image command when its payload
/// starts with `1337;File=` (invalid when the rest is not UTF-8), otherwise
/// the whole sequence as text.
pub open spec fn osc_item(s: Seq<u8>, start: int, payload_start: int, payload_end: int, end: int) -> ScanItemView {
    let payload = s.subrange(payload_start, payload_end);
    if payload.len() >= 10 && payload.take(10) == it2_prefix() {
        let image = payload.skip(10);
        if valid_utf8(image) {
            ScanItemView::InlineImage(decode_utf8(image))
        } else {
            ScanItemView::InvalidInlineImage
        }
    } else {
        ScanItemView::Text(s.subrange(start, end))
    }
}

/// The pieces of `s` from `cursor` on, and how far they reach.
pub open spec fn spec_scan_from(s: Seq<u8>, cursor: int) -> (Seq<ScanItemView>, int)
    decreases s.len() - cursor,
{
    if cursor < 0 || cursor > s.len() {
        (Seq::empty(), cursor)
    } else {
        match spec_find_osc_start(s, cursor) {
            None => (
                if cursor < s.len() {
                    seq![ScanItemView::Text(s.subrange(cursor, s.len() as int))]
                } else {
                    Seq::empty()
                },
                s.len() as int,
            ),
            Some((start, payload_start)) => {
                let before = if start > cursor {
                    seq![ScanItemView::Text(s.subrange(cursor, start))]
                } else {
                    Seq::empty()
                };
                match spec_find_osc_end(s, payload_start) {
                    None => (before, start),
                    Some((payload_end, end)) => {
                        proof {
                            lemma_find_osc_start_bounds(s, cursor);
                            lemma_find_osc_end_bounds(s, payload_start);
                        }
                        let rest = spec_scan_from(s, end);
                        (before.push(osc_item(s, start, payload_start, payload_end, end)) + rest.0, rest.1)
                    }
                }
            }
        }
    }
}

fn find_osc_start(input: &[u8], from: usize) -> (r: Option<(usize, usize)>)
    ensures
        match r {
            Some((start, payload)) => spec_find_osc_start(input@, from as int) == Some((start as int, payload as int)),
            None => spec_find_osc_start(input@, from as int) is None,
        },
{
    let mut cursor = from;
    while cursor < input.len()
        invariant
            from <= cursor,
            spec_find_osc_start(input@, from as int) == spec_find_osc_start(input@, cursor as int),
        decreases input.len() - cursor,
    {
        if input[cursor] == OSC {
            return Some((cursor, cursor + 1));
        }
        if input[cursor] == ESC && cursor + 1 < input.len() && input[cursor + 1] == 0x5du8 {
            return Some((cursor, cursor + 2));
        }
        cursor += 1;
    }
    None
}

fn find_osc_end(input: &[u8], from: usize) -> (r: Option<(usize, usize)>)
    ensures
        match r {
            Some((end, next)) => spec_find_osc_end(input@, from as int) == Some((end as int, next as int)),
            None => spec_find_osc_end(input@, from as int) is None,
        },
{
    let mut cursor = from;
    while cursor < input.len()
        invariant
            from <= cursor,
            spec_find_osc_end(input@, from as int) == spec_find_osc_end(input@, cursor as int),
        decreases input.len() - cursor,
    {
        if input[cursor] == BEL || input[cursor] == ST {
            return Some((cursor, cursor + 1));
        }
        if input[cursor] == ESC && cursor + 1 < input.len() && input[cursor + 1] == 0x5cu8 {
            return Some((cursor, cursor + 2));
        }
        cursor += 1;
    }
    None
}

/// Whether `s[start..end]` begins with `1337;File=`.
fn has_it2_prefix(s: &[u8], start: usize, end: usize) -> (r: bool)
    requires
        start <= end <= s@.len(),
    ensures
        r == (end - start >= 10 && s@.subrange(start as int, end as int).take(10) == it2_prefix()),
{
    if end - start < 10 {
        return false;
    }
    let r = s[start] == 0x31u8 && s[start + 1] == 0x33u8 && s[start + 2] == 0x33u8
        && s[start + 3] == 0x37u8 && s[start + 4] == 0x3bu8 && s[start + 5] == 0x46u8
        && s[start + 6] == 0x69u8 && s[start + 7] == 0x6cu8 && s[start + 8] == 0x65u8
        && s[start + 9] == 0x3du8;
    proof {
        let head = s@.subrange(start as int, end as int).take(10);
        if r {
            assert(head =~= it2_prefix());
        } else {
            if head == it2_prefix() {
                assert(head[0] == s@[start as int]);
                assert(head[9] == s@[start + 9]);
                assert(false) by {
                    assert(forall|k: int| 0 <= k < 10 ==> head[k] == s@[start + k]);
                    assert(forall|k: int| 0 <= k < 10 ==> head[k] == it2_prefix()[k]);
                }
            }
        }
    }
    r
}

/// Split complete iTerm2 image OSC sequences from ordinary PTY bytes.
pub fn scan_pty_stream(input: &[u8]) -> (r: PtyStreamScan<'_>)
    ensures
        items_view(r.items@) == spec_scan_from(input@, 0).0,
        r.consumed as int == spec_scan_from(input@, 0).1,
{
    let ghost s = input@;
    let mut items: Vec<PtyStreamItem<'_>> = Vec::new();
    let mut cursor: usize = 0;
    loop
        invariant
            s == input@,
            cursor <= input.len(),
            items_view(items@) + spec_scan_from(s, cursor as int).0 == spec_scan_from(s, 0).0,
            spec_scan_from(s, cursor as int).1 == spec_scan_from(s, 0).1,
        decreases input.len() - cursor,
    {
        let found = find_osc_start(input, cursor);
        proof {
            lemma_find_osc_start_bounds(s, cursor as int);
        }
        match found {
            None => {
                let ghost before = items@;
                if cursor < input.len() {
                    let text = &input[cursor..input.len()];
                    items.push(PtyStreamItem::Text(text));
                    assert(items_view(items@) =~= items_view(before).push(ScanItemView::Text(s.subrange(cursor as int, s.len() as int))));
                } else {
                    assert(items_view(items@) =~= items_view(before));
                }
                assert(items_view(items@) =~= spec_scan_from(s, 0).0);
                return PtyStreamScan { items, consumed: input.len() };
            }
            Some((osc_start, payload_start)) => {
                let ghost before = items@;
                if osc_start > cursor {
                    let text = &input[cursor..osc_start];
                    items.push(PtyStreamItem::Text(text));
                    assert(items_view(items@) =~= items_view(before).push(ScanItemView::Text(s.subrange(cursor as int, osc_start as int))));
                } else {
                    assert(items_view(items@) =~= items_view(before));
                }
                let ghost with_text = items@;
                let ended = find_osc_end(input, payload_start);
                proof {
                    lemma_find_osc_end_bounds(s, payload_start as int);
                }
                match ended {
                    None => {
                        assert(items_view(items@) =~= spec_scan_from(s, 0).0);
                        return PtyStreamScan { items, consumed: osc_start };
                    }
                    Some((payload_end, sequence_end)) => {
                        let item = if has_it2_prefix(input, payload_start, payload_end) {
                            let image = &input[payload_start + 10..payload_end];
                            proof {
                                assert(image@ =~= s.subrange(payload_start as int, payload_end as int).skip(10));
                            }
                            match str_from_utf8(image) {
                                Some(text) => PtyStreamItem::InlineImage(text),
                                None => PtyStreamItem::InvalidInlineImage,
                            }
                        } else {
                            let whole = &input[osc_start..sequence_end];
                            PtyStreamItem::Text(whole)
                        };
                        items.push(item);
                        proof {
                            assert(item@ == osc_item(s, osc_start as int, payload_start as int, payload_end as int, sequence_end as int));
                            assert(items_view(items@) =~= items_view(with_text).push(item@));
                            let rest = spec_scan_from(s, sequence_end as int);
                            assert(items_view(items@) + rest.0 =~= items_view(before) + spec_scan_from(s, cursor as int).0);
                        }
                        cursor = sequence_end;
                    }
                }
            }
        }
    }
}

/// An unterminated iTerm2 image command that already holds more bytes than
/// any accepted image could need.
pub open spec fn spec_pending_oversized(pending: Seq<u8>, limits: ImageLimits) -> bool {
    let start: int = if pending.len() >= 2 && pending[0] == ESC && pending[1] == 0x5du8 {
        2
    } else if pending.len() >= 1 && pending[0] == OSC {
        1
    } else {
        -1
    };
    &&& start >= 0
    &&& pending.len() - start >= 10
    &&& pending.skip(start).take(10) == it2_prefix()
    &&& pending.len() > limits.max_encoded_bytes.saturating_add(crate::proto::iterm2::MAX_METADATA_BYTES).saturating_add(64)
}

pub fn pending_inline_image_is_oversized(pending: &[u8], limits: ImageLimits) -> (r: bool)
    ensures
        r == spec_pending_oversized(pending@, limits),
{
    let payload_start: usize = if pending.len() >= 2 && pending[0] == ESC && pending[1] == 0x5du8 {
        2
    } else if pending.len() >= 1 && pending[0] == OSC {
        1
    } else {
        return false;
    };
    let prefixed = has_it2_prefix(pending, payload_start, pending.len());
    proof {
        assert(pending@.subrange(payload_start as int, pending@.len() as int) =~= pending@.skip(payload_start as int));
    }
    prefixed && pending.len() > limits.max_encoded_bytes.saturating_add(crate::proto::iterm2::MAX_METADATA_BYTES).saturating_add(64)
}

// ---------------------------------------------------------------------
// Decoding.
// ---------------------------------------------------------------------

/// A decoded image: its size and straight-alpha RGBA8 pixels, row by row.
#[derive(Clone, Debug, Eq, PartialEq)]
pub struct DecodedImage {
    pub width: u32,
    pub height: u32,
    pub rgba: Vec<u8>,
}

/// Contents of a decoded image.
pub struct DecodedImageView {
    pub width: u32,
    pub height: u32,
    pub rgba: Seq<u8>,
}

impl View for DecodedImage {
    type V = DecodedImageView;

    open spec fn view(&self) -> DecodedImageView {
        DecodedImageView { width: self.width, height: self.height, rgba: self.rgba@ }
    }
}

pub open spec fn decoded_result_view(r: Result<DecodedImage, InlineImageError>) -> Result<DecodedImageView, InlineImageError> {
    match r {
        Ok(image) => Ok(image@),
        Err(e) => Err(e),
    }
}

/// The first limit that an image of `width` by `height` pixels breaks, if
/// any: a zero side, a side over its maximum, too many pixels, an RGBA size
/// beyond 64 bits, or an RGBA size over the decoded-bytes limit.
pub open spec fn dimension_error(width: u32, height: u32, limits: ImageLimits) -> Option<InlineImageError> {
    let pixels = width as int * height as int;
    if width == 0 || height == 0 {
        Some(InlineImageError::ZeroDimension)
    } else if width > limits.max_width || height > limits.max_height {
        Some(InlineImageError::DimensionLimit)
    } else if pixels > limits.max_pixels {
        Some(InlineImageError::PixelLimit)
    } else if pixels * 4 > u64::MAX {
        Some(InlineImageError::SizeOverflow)
    } else if pixels * 4 > limits.max_decoded_bytes {
        Some(InlineImageError::DecodedTooLarge)
    } else {
        None
    }
}

/// RGB triples widened to opaque RGBA quadruples.
pub open spec fn expand_rgb(raw: Seq<u8>) -> Seq<u8>
    decreases raw.len(),
{
    if raw.len() < 3 {
        Seq::empty()
    } else {
        let n = raw.len() - 3;
        expand_rgb(raw.take(n)) + seq![raw[n], raw[n + 1], raw[n + 2], 255u8]
    }
}

pub proof fn lemma_expand_rgb_len(raw: Seq<u8>)
    requires
        raw.len() % 3 == 0,
    ensures
        expand_rgb(raw).len() * 3 == raw.len() * 4,
    decreases raw.len(),
{
    if raw.len() >= 3 {
        lemma_expand_rgb_len(raw.take(raw.len() - 3));
    }
}

/// A raw Kitty payload of `channels` bytes per pixel (3 for RGB, 4 for
/// RGBA) as an RGBA image, after the dimension checks and a check that the
/// payload holds exactly one value per channel and pixel.
pub open spec fn spec_decode_raw(raw: Seq<u8>, width: u32, height: u32, channels: int, limits: ImageLimits) -> Result<DecodedImageView, InlineImageError> {
    match dimension_error(width, height, limits) {
        Some(e) => Err(e),
        None => if raw.len() != width as int * height as int * channels {
            Err(InlineImageError::InvalidPayloadLength)
        } else {
            Ok(DecodedImageView {
                width,
                height,
                rgba: if channels == 4 { raw } else { expand_rgb(raw) },
            })
        },
    }
}

proof fn lemma_pixels_fit(width: u32, height: u32)
    ensures
        0 <= width as int * height as int <= u64::MAX,
        (width as int * height as int) * 3 <= (width as int * height as int) * 4,
{
    assert(0 <= width as int * height as int <= 0xffff_fffe_0000_0001int) by (nonlinear_arith)
        requires
            width <= 0xffff_ffffu32,
            height <= 0xffff_ffffu32;
}

/// Width and height of an image, checked against `limits`; on success the
/// pixel count and the RGBA byte count.
fn check_dimensions(width: u32, height: u32, limits: ImageLimits) -> (r: Result<(u64, u64), InlineImageError>)
    ensures
        match r {
            Ok((pixels, bytes)) => dimension_error(width, height, limits) is None
                && pixels == width as int * height as int && bytes == pixels * 4,
            Err(e) => dimension_error(width, height, limits) == Some(e),
        },
{
    proof {
        lemma_pixels_fit(width, height);
    }
    if width == 0 || height == 0 {
        return Err(InlineImageError::ZeroDimension);
    }
    if width > limits.max_width || height > limits.max_height {
        return Err(InlineImageError::DimensionLimit);
    }
    let pixels = match (width as u64).checked_mul(height as u64) {
        Some(pixels) => pixels,
        None => return Err(InlineImageError::SizeOverflow),
    };
    if pixels > limits.max_pixels {
        return Err(InlineImageError::PixelLimit);
    }
    let decoded_bytes = match pixels.checked_mul(4) {
        Some(bytes) => bytes,
        None => return Err(InlineImageError::SizeOverflow),
    };
    if decoded_bytes > limits.max_decoded_bytes as u64 {
        return Err(InlineImageError::DecodedTooLarge);
    }
    Ok((pixels, decoded_bytes))
}

fn decode_raw_image(raw: Vec<u8>, width: u32, height: u32, channels: u64, limits: ImageLimits) -> (r: Result<DecodedImage, InlineImageError>)
    requires
        channels == 3 || channels == 4,
    ensures
        decoded_result_view(r) == spec_decode_raw(raw@, width, height, channels as int, limits),
{
    let (pixels, decoded_bytes) = match check_dimensions(width, height, limits) {
        Ok(sizes) => sizes,
        Err(e) => return Err(e),
    };
    proof {
        assert(pixels * channels <= pixels * 4) by (nonlinear_arith)
            requires
                channels <= 4;
    }
    let expected_payload_bytes = match pixels.checked_mul(channels) {
        Some(bytes) => bytes,
        None => return Err(InlineImageError::SizeOverflow),
    };
    if raw.len() as u64 != expected_payload_bytes {
        return Err(InlineImageError::InvalidPayloadLength);
    }

    let rgba = if channels == 4 {
        raw
    } else {
        let capacity = decoded_bytes as usize;
        let mut rgba: Vec<u8> = Vec::with_capacity(capacity);
        let mut i: usize = 0;
        while i < raw.len()
            invariant
                i <= raw@.len(),
                i as int % 3 == 0,
                raw@.len() as int % 3 == 0,
                rgba@ == expand_rgb(raw@.take(i as int)),
            decreases raw.len() - i,
        {
            proof {
                let next = raw@.take(i + 3);
                assert(next.take(i as int) =~= raw@.take(i as int));
            }
            rgba.push(raw[i]);
            rgba.push(raw[i + 1]);
            rgba.push(raw[i + 2]);
            rgba.push(255u8);
            i = i + 3;
        }
        proof {
            assert(raw@.take(i as int) =~= raw@);
            lemma_expand_rgb_len(raw@);
        }
        rgba
    };
    if rgba.len() as u64 != decoded_bytes {
        return Err(InlineImageError::SizeOverflow);
    }
    Ok(DecodedImage { width, height, rgba })
}

pub open spec fn decoded_png_view(r: Option<(u32, u32, Vec<u8>)>) -> Option<(u32, u32, Seq<u8>)> {
    match r {
        Some((width, height, rgba)) => Some((width, height, rgba@)),
        None => None,
    }
}

/// The width, height and RGBA8 pixels that the `image` crate decodes a PNG
/// file to, or nothing when it refuses the bytes.
pub uninterp spec fn png_rgba_decode(png: Seq<u8>) -> Option<(u32, u32, Seq<u8>)>;

/// `image::load_from_memory_with_format(png, ImageFormat::Png)`, converted
/// with `into_rgba8` and split into its `dimensions` and `into_raw` pixels;
/// the load error is dropped.
#[verifier::external_body]
fn decode_png_rgba(png: &[u8]) -> (r: Option<(u32, u32, Vec<u8>)>)
    ensures
        decoded_png_view(r) == png_rgba_decode(png@),
{
    match image::load_from_memory_with_format(png, image::ImageFormat::Png) {
        Ok(decoded) => {
            let rgba = decoded.into_rgba8();
            let (width, height) = rgba.dimensions();
            Some((width, height, rgba.into_raw()))
        }
        Err(_) => None,
    }
}

/// What the PNG decoder's answer becomes: an invalid PNG when it refused
/// the bytes, otherwise the image after the dimension checks and a check
/// that it holds exactly four bytes per pixel.
pub open spec fn spec_accept_png(decoded: Option<(u32, u32, Seq<u8>)>, limits: ImageLimits) -> Result<DecodedImageView, InlineImageError> {
    match decoded {
        None => Err(InlineImageError::InvalidPng),
        Some((width, height, rgba)) => match dimension_error(width, height, limits) {
            Some(e) => Err(e),
            None => if rgba.len() != width as int * height as int * 4 {
                Err(InlineImageError::SizeOverflow)
            } else {
                Ok(DecodedImageView { width, height, rgba })
            },
        },
    }
}

/// Checks a PNG decoder's answer against `limits`.
pub fn accept_decoded_png(decoded: Option<(u32, u32, Vec<u8>)>, limits: ImageLimits) -> (r: Result<DecodedImage, InlineImageError>)
    ensures
        decoded_result_view(r) == spec_accept_png(decoded_png_view(decoded), limits),
{
    let (width, height, raw) = match decoded {
        Some(parts) => parts,
        None => return Err(InlineImageError::InvalidPng),
    };
    let (_pixels, decoded_bytes) = match check_dimensions(width, height, limits) {
        Ok(sizes) => sizes,
        Err(e) => return Err(e),
    };
    if raw.len() as u64 != decoded_bytes {
        return Err(InlineImageError::SizeOverflow);
    }
    Ok(DecodedImage { width, height, rgba: raw })
}

fn decode_png_bytes(compressed: &[u8], limits: ImageLimits) -> (r: Result<DecodedImage, InlineImageError>)
    ensures
        decoded_result_view(r) == spec_accept_png(png_rgba_decode(compressed@), limits),
{
    let decoded = decode_png_rgba(compressed);
    accept_decoded_png(decoded, limits)
}

/// A base64 payload within the encoded-bytes limit, decoded.
pub open spec fn spec_decode_base64_payload(payload: Seq<u8>, limits: ImageLimits) -> Result<Seq<u8>, InlineImageError> {
    if payload.len() > limits.max_encoded_bytes {
        Err(InlineImageError::EncodedTooLarge)
    } else {
        match base64_standard_decode(payload) {
            Some(bytes) => Ok(bytes),
            None => Err(InlineImageError::InvalidBase64),
        }
    }
}

fn decode_base64_payload(payload: &[u8], limits: ImageLimits) -> (r: Result<Vec<u8>, InlineImageError>)
    ensures
        match r {
            Ok(bytes) => spec_decode_base64_payload(payload@, limits) == Ok::<Seq<u8>, InlineImageError>(bytes@),
            Err(e) => spec_decode_base64_payload(payload@, limits) == Err::<Seq<u8>, InlineImageError>(e),
        },
{
    if payload.len() > limits.max_encoded_bytes {
        return Err(InlineImageError::EncodedTooLarge);
    }
    match decode_base64_standard(payload) {
        Some(bytes) => Ok(bytes),
        None => Err(InlineImageError::InvalidBase64),
    }
}

/// A base64 PNG payload, decoded: the base64 text and the PNG file it
/// decodes to must each fit the encoded-bytes limit.
pub open spec fn spec_decode_png_payload(payload: Seq<u8>, limits: ImageLimits) -> Result<DecodedImageView, InlineImageError> {
    match spec_decode_base64_payload(payload, limits) {
        Err(e) => Err(e),
        Ok(compressed) => if compressed.len() > limits.max_encoded_bytes {
            Err(InlineImageError::CompressedTooLarge)
        } else {
            spec_accept_png(png_rgba_decode(compressed), limits)
        },
    }
}

pub fn decode_png_payload(payload: &[u8], limits: ImageLimits) -> (r: Result<DecodedImage, InlineImageError>)
    ensures
        decoded_result_view(r) == spec_decode_png_payload(payload@, limits),
{
    let compressed = match decode_base64_payload(payload, limits) {
        Ok(bytes) => bytes,
        Err(e) => return Err(e),
    };
    if compressed.len() > limits.max_encoded_bytes {
        return Err(InlineImageError::CompressedTooLarge);
    }
    decode_png_bytes(&compressed, limits)
}

/// Decodes the PNG payload of an iTerm2 image command.
pub fn decode_png(sequence: &InlineImageSequence<'_>, limits: ImageLimits) -> (r: Result<DecodedImage, InlineImageError>)
    ensures
        decoded_result_view(r) == spec_decode_png_payload(encode_utf8(sequence.payload@), limits),
{
    decode_png_payload(sequence.payload.as_bytes(), limits)
}

/// A Kitty payload in the given format, decoded.
pub open spec fn spec_decode_kitty_image(format: KittyFormat, payload: Seq<u8>, limits: ImageLimits) -> Result<DecodedImageView, InlineImageError> {
    match format {
        KittyFormat::Png => spec_decode_png_payload(payload, limits),
        KittyFormat::Rgb24 { width, height } => match spec_decode_base64_payload(payload, limits) {
            Err(e) => Err(e),
            Ok(raw) => spec_decode_raw(raw, width, height, 3, limits),
        },
        KittyFormat::Rgba32 { width, height } => match spec_decode_base64_payload(payload, limits) {
            Err(e) => Err(e),
            Ok(raw) => spec_decode_raw(raw, width, height, 4, limits),
        },
    }
}

pub fn decode_kitty_image(format: KittyFormat, payload: &[u8], limits: ImageLimits) -> (r: Result<DecodedImage, InlineImageError>)
    ensures
        decoded_result_view(r) == spec_decode_kitty_image(format, payload@, limits),
{
    match format {
        KittyFormat::Png => decode_png_payload(payload, limits),
        KittyFormat::Rgb24 { width, height } => {
            let raw = match decode_base64_payload(payload, limits) {
                Ok(raw) => raw,
                Err(e) => return Err(e),
            };
            decode_raw_image(raw, width, height, 3, limits)
        }
        KittyFormat::Rgba32 { width, height } => {
            let raw = match decode_base64_payload(payload, limits) {
                Ok(raw) => raw,
                Err(e) => return Err(e),
            };
            decode_raw_image(raw, width, height, 4, limits)
        }
    }
}

// ---------------------------------------------------------------------
// Placement sizing.
// ---------------------------------------------------------------------

/// Pixel size of one terminal cell.
#[derive(Clone, Copy, Debug, Eq, PartialEq, Structural)]
pub struct CellMetrics {
    pub width: u32,
    pub height: u32,
}

/// Options of a Kitty placement command.
#[derive(Clone, Copy, Debug, Eq, PartialEq, Structural)]
pub struct KittyPlacementOptions {
    pub columns: Option<u16>,
    pub rows: Option<u16>,
    pub source_x: Option<u32>,
    pub source_y: Option<u32>,
    pub source_width: Option<u32>,
    pub source_height: Option<u32>,
    pub pixel_offset_x: Option<u16>,
    pub pixel_offset_y: Option<u16>,
    pub z_index: i32,
    pub kitty_image_id: Option<u32>,
}

impl Default for KittyPlacementOptions {
    fn default() -> (o: Self)
        ensures
            o == (KittyPlacementOptions {
                columns: None,
                rows: None,
                source_x: None,
                source_y: None,
                source_width: None,
                source_height: None,
                pixel_offset_x: None,
                pixel_offset_y: None,
                z_index: 0,
                kitty_image_id: None,
            }),
    {
        KittyPlacementOptions {
            columns: None,
            rows: None,
            source_x: None,
            source_y: None,
            source_width: None,
            source_height: None,
            pixel_offset_x: None,
            pixel_offset_y: None,
            z_index: 0,
            kitty_image_id: None,
        }
    }
}

/// `numerator / denominator` rounded up (saturating the intermediate sum)
/// and clamped to `1..=u16::MAX`; 1 for a zero denominator.
pub open spec fn spec_ceil_ratio(numerator: u64, denominator: u64) -> u16 {
    if denominator == 0 {
        1
    } else {
        let q = numerator.saturating_add((denominator - 1) as u64) / denominator;
        if q < 1 {
            1
        } else if q > 0xffff {
            0xffff
        } else {
            q as u16
        }
    }
}

fn ceil_ratio(numerator: u64, denominator: u64) -> (r: u16)
    ensures
        r == spec_ceil_ratio(numerator, denominator),
{
    if denominator == 0 {
        return 1;
    }
    let q = match numerator.saturating_add(denominator - 1).checked_div(denominator) {
        Some(q) => q,
        None => 1,
    };
    if q < 1 {
        1
    } else if q > 0xffff {
        0xffff
    } else {
        q as u16
    }
}

/// Rows that `columns` cells show of an image of `image_width` by
/// `image_height` pixels at its own aspect ratio.
pub open spec fn spec_rows_for_dimensions(image_width: u32, image_height: u32, columns: u16, metrics: CellMetrics) -> Result<u16, InlineImageError> {
    let numerator = columns as int * metrics.width as int * image_height as int;
    let denominator = image_width as int * metrics.height as int;
    if numerator > u64::MAX {
        Err(InlineImageError::SizeOverflow)
    } else {
        Ok(spec_ceil_ratio(numerator as u64, denominator as u64))
    }
}

/// Columns that `rows` cells show of an image at its own aspect ratio.
pub open spec fn spec_columns_for_dimensions(image_width: u32, image_height: u32, rows: u16, metrics: CellMetrics) -> Result<u16, InlineImageError> {
    let numerator = rows as int * metrics.height as int * image_width as int;
    let denominator = image_height as int * metrics.width as int;
    if numerator > u64::MAX {
        Err(InlineImageError::SizeOverflow)
    } else {
        Ok(spec_ceil_ratio(numerator as u64, denominator as u64))
    }
}

proof fn lemma_products_fit(cells: u16, a: u32, b: u32)
    ensures
        0 <= cells as int * a as int <= u64::MAX,
        0 <= a as int * b as int <= u64::MAX,
        0 <= cells as int * a as int * b as int,
{
    assert(0 <= cells as int * a as int <= 0xffff_ffff_ffffint) by (nonlinear_arith)
        requires
            cells <= 0xffffu16,
            a <= 0xffff_ffffu32;
    assert(0 <= a as int * b as int <= 0xffff_fffe_0000_0001int) by (nonlinear_arith)
        requires
            a <= 0xffff_ffffu32,
            b <= 0xffff_ffffu32;
    assert(0 <= cells as int * a as int * b as int) by (nonlinear_arith);
}

fn rows_for_dimensions(image_width: u32, image_height: u32, columns: u16, metrics: CellMetrics) -> (r: Result<u16, InlineImageError>)
    ensures
        r == spec_rows_for_dimensions(image_width, image_height, columns, metrics),
{
    proof {
        lemma_products_fit(columns, metrics.width, image_height);
        lemma_products_fit(0, image_width, metrics.height);
    }
    let scaled = match (columns as u64).checked_mul(metrics.width as u64) {
        Some(value) => value.checked_mul(image_height as u64),
        None => None,
    };
    let numerator = match scaled {
        Some(value) => value,
        None => return Err(InlineImageError::SizeOverflow),
    };
    let denominator = match (image_width as u64).checked_mul(metrics.height as u64) {
        Some(value) => value,
        None => return Err(InlineImageError::SizeOverflow),
    };
    Ok(ceil_ratio(numerator, denominator))
}

fn columns_for_dimensions(image_width: u32, image_height: u32, rows: u16, metrics: CellMetrics) -> (r: Result<u16, InlineImageError>)
    ensures
        r == spec_columns_for_dimensions(image_width, image_height, rows, metrics),
{
    proof {
        lemma_products_fit(rows, metrics.height, image_width);
        lemma_products_fit(0, image_height, metrics.width);
    }
    let scaled = match (rows as u64).checked_mul(metrics.height as u64) {
        Some(value) => value.checked_mul(image_width as u64),
        None => None,
    };
    let numerator = match scaled {
        Some(value) => value,
        None => return Err(InlineImageError::SizeOverflow),
    };
    let denominator = match (image_height as u64).checked_mul(metrics.width as u64) {
        Some(value) => value,
        None => return Err(InlineImageError::SizeOverflow),
    };
    Ok(ceil_ratio(numerator, denominator))
}

fn rows_for_columns(image: &DecodedImage, columns: u16, metrics: CellMetrics) -> (r: Result<u16, InlineImageError>)
    ensures
        r == spec_rows_for_dimensions(image.width, image.height, columns, metrics),
{
    rows_for_dimensions(image.width, image.height, columns, metrics)
}

fn columns_for_rows(image: &DecodedImage, rows: u16, metrics: CellMetrics) -> (r: Result<u16, InlineImageError>)
    ensures
        r == spec_columns_for_dimensions(image.width, image.height, rows, metrics),
{
    columns_for_dimensions(image.width, image.height, rows, metrics)
}

pub open spec fn max_u16(a: u16, b: u16) -> u16 {
    if a >= b { a } else { b }
}

pub open spec fn min_u16(a: u16, b: u16) -> u16 {
    if a <= b { a } else { b }
}

/// A natural size narrowed to `maximum` columns, with the rows scaled by
/// the same factor (rounded up); both sides at least one cell.
pub open spec fn spec_clamp_width(columns: u16, rows: u16, maximum: u16) -> (u16, u16) {
    let columns = max_u16(columns, 1);
    let rows = max_u16(rows, 1);
    if columns <= maximum {
        (columns, rows)
    } else {
        (max_u16(maximum, 1), spec_ceil_ratio((rows as int * maximum as int) as u64, columns as u64))
    }
}

fn clamp_width_preserving_ratio(columns: u16, rows: u16, maximum: u16) -> (r: (u16, u16))
    ensures
        r == spec_clamp_width(columns, rows, maximum),
{
    let columns = if columns >= 1 { columns } else { 1 };
    let rows = if rows >= 1 { rows } else { 1 };
    if columns <= maximum {
        return (columns, rows);
    }
    proof {
        assert(rows as int * maximum as int <= 0xffff * 0xffff) by (nonlinear_arith)
            requires
                rows <= 0xffffu16,
                maximum <= 0xffffu16;
        assert(rows as int * maximum as int >= 0) by (nonlinear_arith);
    }
    let scaled_rows = ceil_ratio(rows as u64 * maximum as u64, columns as u64);
    (if maximum >= 1 { maximum } else { 1 }, scaled_rows)
}

/// The largest size at the image's aspect ratio that fits a box of
/// `box_columns` by `box_rows` cells: full box width when the derived
/// height fits, otherwise full box height.
pub open spec fn spec_fit_inside_cell_box(image_width: u32, image_height: u32, box_columns: u16, box_rows: u16, metrics: CellMetrics) -> Result<(u16, u16), InlineImageError> {
    match spec_rows_for_dimensions(image_width, image_height, box_columns, metrics) {
        Err(e) => Err(e),
        Ok(width_limited_rows) => if width_limited_rows <= box_rows {
            Ok((box_columns, width_limited_rows))
        } else {
            match spec_columns_for_dimensions(image_width, image_height, box_rows, metrics) {
                Err(e) => Err(e),
                Ok(columns) => Ok((min_u16(columns, box_columns), box_rows)),
            }
        },
    }
}

/// Fitting into a box of cells keeps the image's aspect ratio: when the
/// least number of rows that covers the image drawn at the box's full width
/// (`rows * cell_h * image_w >= columns * cell_w * image_h`, one row fewer
/// not enough) fits the box, the placement is the full width and exactly
/// those rows. (The products must fit in `u64`, as the sizing arithmetic
/// needs.)
pub proof fn lemma_fit_keeps_aspect_ratio(
    image_width: u32,
    image_height: u32,
    box_columns: u16,
    box_rows: u16,
    metrics: CellMetrics,
    rows: int,
)
    requires
        image_width > 0,
        image_height > 0,
        metrics.width > 0,
        metrics.height > 0,
        box_columns > 0,
        box_columns as int * metrics.width as int * image_height as int
            + image_width as int * metrics.height as int <= u64::MAX,
        1 <= rows <= box_rows,
        rows * (image_width as int * metrics.height as int) >= box_columns as int * metrics.width as int * image_height as int,
        (rows - 1) * (image_width as int * metrics.height as int) < box_columns as int * metrics.width as int * image_height as int,
    ensures
        spec_fit_inside_cell_box(image_width, image_height, box_columns, box_rows, metrics) == Ok::<(u16, u16), InlineImageError>((box_columns, rows as u16)),
{
    let n = box_columns as int * metrics.width as int * image_height as int;
    let d = image_width as int * metrics.height as int;
    assert(n >= 0 && d >= 1) by (nonlinear_arith)
        requires
            box_columns > 0,
            metrics.width > 0,
            image_height > 0,
            image_width > 0,
            metrics.height > 0,
            n == box_columns as int * metrics.width as int * image_height as int,
            d == image_width as int * metrics.height as int,
    ;
    let sum = n + d - 1;
    let q = sum / d;
    assert(q == rows) by (nonlinear_arith)
        requires
            d >= 1,
            q == sum / d,
            sum == n + d - 1,
            rows * d >= n,
            (rows - 1) * d < n,
    ;
    assert(spec_rows_for_dimensions(image_width, image_height, box_columns, metrics) == Ok::<u16, InlineImageError>(rows as u16));
}

fn fit_inside_cell_box(image: &DecodedImage, box_columns: u16, box_rows: u16, metrics: CellMetrics) -> (r: Result<(u16, u16), InlineImageError>)
    ensures
        r == spec_fit_inside_cell_box(image.width, image.height, box_columns, box_rows, metrics),
{
    let width_limited_rows = match rows_for_columns(image, box_columns, metrics) {
        Ok(rows) => rows,
        Err(e) => return Err(e),
    };
    if width_limited_rows <= box_rows {
        Ok((box_columns, width_limited_rows))
    } else {
        let columns = match columns_for_rows(image, box_rows, metrics) {
            Ok(columns) => columns,
            Err(e) => return Err(e),
        };
        Ok((if columns <= box_columns { columns } else { box_columns }, box_rows))
    }
}

/// The source rectangle of a Kitty placement: origin `x`, `y` (default 0)
/// and the requested size (0 or absent meaning "to the image edge"),
/// intersected with the image; refused when the requested corner overflows
/// or the intersection is empty.
pub open spec fn spec_resolve_source_rect(image_width: u32, image_height: u32, options: KittyPlacementOptions) -> Result<ImageSourceRect, InlineImageError> {
    let x = match options.source_x { Some(v) => v, None => 0u32 };
    let y = match options.source_y { Some(v) => v, None => 0u32 };
    let requested_right: Option<int> = match options.source_width {
        None => Some(image_width as int),
        Some(w) => if w == 0 {
            Some(image_width as int)
        } else if x + w > u32::MAX {
            None
        } else {
            Some(x + w)
        },
    };
    let requested_bottom: Option<int> = match options.source_height {
        None => Some(image_height as int),
        Some(h) => if h == 0 {
            Some(image_height as int)
        } else if y + h > u32::MAX {
            None
        } else {
            Some(y + h)
        },
    };
    match (requested_right, requested_bottom) {
        (Some(requested_right), Some(requested_bottom)) => {
            let right = if requested_right <= image_width { requested_right } else { image_width as int };
            let bottom = if requested_bottom <= image_height { requested_bottom } else { image_height as int };
            if right - x <= 0 || bottom - y <= 0 {
                Err(InlineImageError::InvalidSourceRectangle)
            } else {
                Ok(ImageSourceRect { x, y, width: (right - x) as u32, height: (bottom - y) as u32 })
            }
        },
        _ => Err(InlineImageError::InvalidSourceRectangle),
    }
}

fn resolve_kitty_source_rect(image: &DecodedImage, options: KittyPlacementOptions) -> (r: Result<ImageSourceRect, InlineImageError>)
    ensures
        r == spec_resolve_source_rect(image.width, image.height, options),
{
    let x = match options.source_x { Some(v) => v, None => 0 };
    let y = match options.source_y { Some(v) => v, None => 0 };
    let requested_right = match options.source_width {
        None => image.width,
        Some(width) => if width == 0 {
            image.width
        } else {
            match x.checked_add(width) {
                Some(right) => right,
                None => return Err(InlineImageError::InvalidSourceRectangle),
            }
        },
    };
    let requested_bottom = match options.source_height {
        None => image.height,
        Some(height) => if height == 0 {
            image.height
        } else {
            match y.checked_add(height) {
                Some(bottom) => bottom,
                None => return Err(InlineImageError::InvalidSourceRectangle),
            }
        },
    };
    let right = if requested_right <= image.width { requested_right } else { image.width };
    let bottom = if requested_bottom <= image.height { requested_bottom } else { image.height };
    let width = match right.checked_sub(x) {
        Some(width) if width > 0 => width,
        _ => return Err(InlineImageError::InvalidSourceRectangle),
    };
    let height = match bottom.checked_sub(y) {
        Some(height) if height > 0 => height,
        _ => return Err(InlineImageError::InvalidSourceRectangle),
    };
    Ok(ImageSourceRect { x, y, width, height })
}

/// The placement a Kitty `put` (or `transmit and put`) creates.
///
/// The cell size must be non-zero, the source rectangle must intersect the
/// image and the pixel offset must lie inside one cell. Without a requested
/// size the image covers the cells its source rectangle needs; with one
/// side requested the other follows the source's aspect ratio; with both
/// the exact rectangle is used. Each side is at least one cell.
pub open spec fn spec_placement_for_kitty(
    id: ImageId,
    placement_id: ImagePlacementId,
    image_width: u32,
    image_height: u32,
    options: KittyPlacementOptions,
    anchor: GridPoint,
    metrics: CellMetrics,
) -> Result<ImagePlacement, InlineImageError> {
    if metrics.width == 0 || metrics.height == 0 {
        Err(InlineImageError::ZeroCellSize)
    } else {
        match spec_resolve_source_rect(image_width, image_height, options) {
            Err(e) => Err(e),
            Ok(source_rect) => {
                let pixel_offset = ImagePixelOffset {
                    x: match options.pixel_offset_x { Some(v) => v, None => 0u16 },
                    y: match options.pixel_offset_y { Some(v) => v, None => 0u16 },
                };
                if pixel_offset.x >= metrics.width || pixel_offset.y >= metrics.height {
                    Err(InlineImageError::InvalidPixelOffset)
                } else {
                    let size: Result<(u16, u16), InlineImageError> = match (options.columns, options.rows) {
                        (None, None) => Ok((
                            spec_ceil_ratio(source_rect.width as u64, metrics.width as u64),
                            spec_ceil_ratio(source_rect.height as u64, metrics.height as u64),
                        )),
                        (Some(columns), None) => match spec_rows_for_dimensions(source_rect.width, source_rect.height, columns, metrics) {
                            Ok(rows) => Ok((columns, rows)),
                            Err(e) => Err(e),
                        },
                        (None, Some(rows)) => match spec_columns_for_dimensions(source_rect.width, source_rect.height, rows, metrics) {
                            Ok(columns) => Ok((columns, rows)),
                            Err(e) => Err(e),
                        },
                        (Some(columns), Some(rows)) => Ok((columns, rows)),
                    };
                    match size {
                        Err(e) => Err(e),
                        Ok((columns, rows)) => Ok(ImagePlacement {
                            placement_id,
                            image_id: id,
                            kitty_image_id: options.kitty_image_id,
                            anchor,
                            columns: max_u16(columns, 1),
                            rows: max_u16(rows, 1),
                            source_width: image_width,
                            source_height: image_height,
                            source_rect,
                            pixel_offset,
                            z_index: ImageZIndex(options.z_index),
                        }),
                    }
                }
            },
        }
    }
}

pub fn placement_for_kitty(
    id: ImageId,
    placement_id: ImagePlacementId,
    image: &DecodedImage,
    options: KittyPlacementOptions,
    anchor: GridPoint,
    metrics: CellMetrics,
) -> (r: Result<ImagePlacement, InlineImageError>)
    ensures
        r == spec_placement_for_kitty(id, placement_id, image.width, image.height, options, anchor, metrics),
{
    if metrics.width == 0 || metrics.height == 0 {
        return Err(InlineImageError::ZeroCellSize);
    }
    let source_rect = match resolve_kitty_source_rect(image, options) {
        Ok(rect) => rect,
        Err(e) => return Err(e),
    };
    let pixel_offset = ImagePixelOffset {
        x: match options.pixel_offset_x { Some(v) => v, None => 0 },
        y: match options.pixel_offset_y { Some(v) => v, None => 0 },
    };
    if pixel_offset.x as u32 >= metrics.width || pixel_offset.y as u32 >= metrics.height {
        return Err(InlineImageError::InvalidPixelOffset);
    }
    let (columns, rows) = match (options.columns, options.rows) {
        (None, None) => (
            ceil_ratio(source_rect.width as u64, metrics.width as u64),
            ceil_ratio(source_rect.height as u64, metrics.height as u64),
        ),
        (Some(columns), None) => match rows_for_dimensions(source_rect.width, source_rect.height, columns, metrics) {
            Ok(rows) => (columns, rows),
            Err(e) => return Err(e),
        },
        (None, Some(rows)) => match columns_for_dimensions(source_rect.width, source_rect.height, rows, metrics) {
            Ok(columns) => (columns, rows),
            Err(e) => return Err(e),
        },
        (Some(columns), Some(rows)) => (columns, rows),
    };
    Ok(ImagePlacement {
        placement_id,
        image_id: id,
        kitty_image_id: options.kitty_image_id,
        anchor,
        columns: if columns >= 1 { columns } else { 1 },
        rows: if rows >= 1 { rows } else { 1 },
        source_width: image.width,
        source_height: image.height,
        source_rect,
        pixel_offset,
        z_index: ImageZIndex(options.z_index),
    })
}

pub open spec fn spec_explicit_cells(dimension: Option<ImageDimension>) -> Option<u16> {
    match dimension {
        Some(ImageDimension::Cells(cells)) => Some(cells),
        _ => None,
    }
}

fn explicit_cells(dimension: Option<ImageDimension>) -> (r: Option<u16>)
    ensures
        r == spec_explicit_cells(dimension),
{
    match dimension {
        Some(ImageDimension::Cells(cells)) => Some(cells),
        Some(ImageDimension::Auto) | None => None,
    }
}

/// Columns left right of the anchor (at least one, at most `u16::MAX`).
pub open spec fn available_columns(terminal_columns: usize, anchor_col: usize) -> u16 {
    let left = terminal_columns.saturating_sub(anchor_col);
    if left < 1 {
        1
    } else if left > 0xffff {
        0xffff
    } else {
        left as u16
    }
}

/// The placement an iTerm2 image command creates.
///
/// The cell size and terminal width must be non-zero. Without a requested
/// size the image covers the cells its pixels need, narrowed to the columns
/// right of the anchor with its aspect ratio kept; a requested width is cut
/// to those columns and the height follows the aspect ratio; a requested
/// height gives the width at the aspect ratio, and when that is too wide
/// the available width with its height; both requested, the image is fit
/// into that box.
pub open spec fn spec_placement_for_image(
    id: ImageId,
    placement_id: ImagePlacementId,
    image_width: u32,
    image_height: u32,
    width: Option<ImageDimension>,
    height: Option<ImageDimension>,
    anchor: GridPoint,
    terminal_columns: usize,
    metrics: CellMetrics,
) -> Result<ImagePlacement, InlineImageError> {
    if metrics.width == 0 || metrics.height == 0 || terminal_columns == 0 {
        Err(InlineImageError::ZeroCellSize)
    } else {
        let available = available_columns(terminal_columns, anchor.col);
        let size: Result<(u16, u16), InlineImageError> = match (spec_explicit_cells(width), spec_explicit_cells(height)) {
            (None, None) => Ok(spec_clamp_width(
                spec_ceil_ratio(image_width as u64, metrics.width as u64),
                spec_ceil_ratio(image_height as u64, metrics.height as u64),
                available,
            )),
            (Some(columns), None) => {
                let columns = max_u16(min_u16(columns, available), 1);
                match spec_rows_for_dimensions(image_width, image_height, columns, metrics) {
                    Ok(rows) => Ok((columns, rows)),
                    Err(e) => Err(e),
                }
            },
            (None, Some(rows)) => {
                let rows = max_u16(rows, 1);
                match spec_columns_for_dimensions(image_width, image_height, rows, metrics) {
                    Err(e) => Err(e),
                    Ok(columns) => if columns > available {
                        match spec_rows_for_dimensions(image_width, image_height, available, metrics) {
                            Ok(rows) => Ok((available, rows)),
                            Err(e) => Err(e),
                        }
                    } else {
                        Ok((columns, rows))
                    },
                }
            },
            (Some(columns), Some(rows)) => spec_fit_inside_cell_box(
                image_width,
                image_height,
                max_u16(min_u16(columns, available), 1),
                max_u16(rows, 1),
                metrics,
            ),
        };
        match size {
            Err(e) => Err(e),
            Ok((columns, rows)) => Ok(ImagePlacement {
                placement_id,
                image_id: id,
                kitty_image_id: None,
                anchor,
                columns: max_u16(columns, 1),
                rows: max_u16(rows, 1),
                source_width: image_width,
                source_height: image_height,
                source_rect: ImageSourceRect { x: 0, y: 0, width: image_width, height: image_height },
                pixel_offset: ImagePixelOffset { x: 0, y: 0 },
                z_index: ImageZIndex(0),
            }),
        }
    }
}

pub fn placement_for_image(
    id: ImageId,
    placement_id: ImagePlacementId,
    image: &DecodedImage,
    sequence: &InlineImageSequence<'_>,
    anchor: GridPoint,
    terminal_columns: usize,
    metrics: CellMetrics,
) -> (r: Result<ImagePlacement, InlineImageError>)
    ensures
        r == spec_placement_for_image(
            id,
            placement_id,
            image.width,
            image.height,
            sequence.width,
            sequence.height,
            anchor,
            terminal_columns,
            metrics,
        ),
{
    if metrics.width == 0 || metrics.height == 0 || terminal_columns == 0 {
        return Err(InlineImageError::ZeroCellSize);
    }
    let left = terminal_columns.saturating_sub(anchor.col);
    let available_columns: u16 = if left < 1 {
        1
    } else if left > 0xffff {
        0xffff
    } else {
        left as u16
    };
    let width = explicit_cells(sequence.width);
    let height = explicit_cells(sequence.height);
    let (columns, rows) = match (width, height) {
        (None, None) => {
            let columns = ceil_ratio(image.width as u64, metrics.width as u64);
            let rows = ceil_ratio(image.height as u64, metrics.height as u64);
            clamp_width_preserving_ratio(columns, rows, available_columns)
        }
        (Some(columns), None) => {
            let columns = if columns <= available_columns { columns } else { available_columns };
            let columns = if columns >= 1 { columns } else { 1 };
            match rows_for_columns(image, columns, metrics) {
                Ok(rows) => (columns, rows),
                Err(e) => return Err(e),
            }
        }
        (None, Some(rows)) => {
            let rows = if rows >= 1 { rows } else { 1 };
            let columns = match columns_for_rows(image, rows, metrics) {
                Ok(columns) => columns,
                Err(e) => return Err(e),
            };
            if columns > available_columns {
                match rows_for_columns(image, available_columns, metrics) {
                    Ok(rows) => (available_columns, rows),
                    Err(e) => return Err(e),
                }
            } else {
                (columns, rows)
            }
        }
        (Some(columns), Some(rows)) => {
            let columns = if columns <= available_columns { columns } else { available_columns };
            let columns = if columns >= 1 { columns } else { 1 };
            let rows = if rows >= 1 { rows } else { 1 };
            match fit_inside_cell_box(image, columns, rows, metrics) {
                Ok(size) => size,
                Err(e) => return Err(e),
            }
        }
    };
    Ok(ImagePlacement {
        placement_id,
        image_id: id,
        kitty_image_id: None,
        anchor,
        columns: if columns >= 1 { columns } else { 1 },
        rows: if rows >= 1 { rows } else { 1 },
        source_width: image.width,
        source_height: image.height,
        source_rect: ImageSourceRect { x: 0, y: 0, width: image.width, height: image.height },
        pixel_offset: ImagePixelOffset::default(),
        z_index: ImageZIndex::default(),
    })
}

/// What is kept of the PTY input after a scan consumed `consumed` bytes:
/// the unscanned rest, unless it is an unterminated inline image already
/// over the size limit, which is dropped.
pub open spec fn spec_retained_pty_bytes(input: Seq<u8>, consumed: int, limits: ImageLimits) -> Seq<u8> {
    let rest = input.subrange(consumed, input.len() as int);
    if consumed < input.len() && !spec_pending_oversized(rest, limits) { rest } else { Seq::empty() }
}

pub fn retained_pty_bytes(input: &[u8], consumed: usize, limits: ImageLimits) -> (r: Vec<u8>)
    requires
        consumed <= input@.len(),
    ensures
        r@ == spec_retained_pty_bytes(input@, consumed as int, limits),
{
    let mut rest: Vec<u8> = Vec::new();
    let mut i = consumed;
    while i < input.len()
        invariant
            consumed <= i <= input@.len(),
            rest@ == input@.subrange(consumed as int, i as int),
        decreases input@.len() - i,
    {
        rest.push(input[i]);
        i += 1;
    }
    if consumed < input.len() && !pending_inline_image_is_oversized(rest.as_slice(), limits) {
        rest
    } else {
        Vec::new()
    }
}

// ---------------------------------------------------------------------
// Laws.
// ---------------------------------------------------------------------

proof fn lemma_scan_from_stops_at_unterminated_osc(s: Seq<u8>, cursor: int)
    requires
        0 <= cursor <= s.len(),
    ensures
        cursor <= spec_scan_from(s, cursor).1 <= s.len(),
        spec_scan_from(s, cursor).1 < s.len() ==> {
            let consumed = spec_scan_from(s, cursor).1;
            &&& osc_introducer_len(s, consumed) is Some
            &&& spec_find_osc_end(s, consumed + osc_introducer_len(s, consumed)->0) is None
        },
    decreases s.len() - cursor,
{
    lemma_find_osc_start_bounds(s, cursor);
    match spec_find_osc_start(s, cursor) {
        None => {},
        Some((start, payload_start)) => {
            lemma_find_osc_end_bounds(s, payload_start);
            match spec_find_osc_end(s, payload_start) {
                None => {},
                Some((payload_end, end)) => {
                    lemma_scan_from_stops_at_unterminated_osc(s, end);
                },
            }
        },
    }
}

/// Scanning covers the whole chunk except an OSC sequence that has not
/// been terminated yet: what is left over starts with an OSC introducer
/// whose terminator is not in the chunk.
pub proof fn lemma_scan_retains_only_unterminated_osc(s: Seq<u8>)
    ensures
        0 <= spec_scan_from(s, 0).1 <= s.len(),
        spec_scan_from(s, 0).1 < s.len() ==> {
            let consumed = spec_scan_from(s, 0).1;
            &&& osc_introducer_len(s, consumed) is Some
            &&& spec_find_osc_end(s, consumed + osc_introducer_len(s, consumed)->0) is None
        },
{
    lemma_scan_from_stops_at_unterminated_osc(s, 0);
}

/// What a decoded image satisfies: non-zero sides within the limits, a
/// pixel count within the limit, and exactly four bytes per pixel, within
/// the decoded-bytes limit.
pub open spec fn within_limits(image: DecodedImageView, limits: ImageLimits) -> bool {
    let pixels = image.width as int * image.height as int;
    &&& 1 <= image.width <= limits.max_width
    &&& 1 <= image.height <= limits.max_height
    &&& pixels <= limits.max_pixels
    &&& image.rgba.len() == pixels * 4
    &&& image.rgba.len() <= limits.max_decoded_bytes
}

proof fn lemma_raw_within_limits(raw: Seq<u8>, width: u32, height: u32, channels: int, limits: ImageLimits)
    requires
        channels == 3 || channels == 4,
        spec_decode_raw(raw, width, height, channels, limits) is Ok,
    ensures
        within_limits(spec_decode_raw(raw, width, height, channels, limits)->Ok_0, limits),
{
    if channels == 3 {
        assert(raw.len() % 3 == 0);
        lemma_expand_rgb_len(raw);
    }
}

/// Every image that the PNG and Kitty decoders accept respects the limits
/// it was decoded under.
pub proof fn lemma_decoded_images_within_limits(format: KittyFormat, payload: Seq<u8>, limits: ImageLimits)
    ensures
        spec_decode_kitty_image(format, payload, limits) is Ok
            ==> within_limits(spec_decode_kitty_image(format, payload, limits)->Ok_0, limits),
        spec_decode_png_payload(payload, limits) is Ok
            ==> within_limits(spec_decode_png_payload(payload, limits)->Ok_0, limits),
{
    match format {
        KittyFormat::Rgb24 { width, height } => {
            if let Ok(raw) = spec_decode_base64_payload(payload, limits) {
                if spec_decode_raw(raw, width, height, 3, limits) is Ok {
                    lemma_raw_within_limits(raw, width, height, 3, limits);
                }
            }
        },
        KittyFormat::Rgba32 { width, height } => {
            if let Ok(raw) = spec_decode_base64_payload(payload, limits) {
                if spec_decode_raw(raw, width, height, 4, limits) is Ok {
                    lemma_raw_within_limits(raw, width, height, 4, limits);
                }
            }
        },
        KittyFormat::Png => {},
    }
}

/// A Kitty placement covers at least one cell each way, shows a non-empty
/// part of the image, and its pixel offset stays inside the anchor cell.
pub proof fn lemma_kitty_placement_in_bounds(
    id: ImageId,
    placement_id: ImagePlacementId,
    image_width: u32,
    image_height: u32,
    options: KittyPlacementOptions,
    anchor: GridPoint,
    metrics: CellMetrics,
)
    ensures
        spec_placement_for_kitty(id, placement_id, image_width, image_height, options, anchor, metrics) matches Ok(p) ==> {
            &&& p.columns >= 1
            &&& p.rows >= 1
            &&& p.source_rect.width >= 1
            &&& p.source_rect.height >= 1
            &&& p.source_rect.x + p.source_rect.width <= image_width
            &&& p.source_rect.y + p.source_rect.height <= image_height
            &&& p.pixel_offset.x < metrics.width
            &&& p.pixel_offset.y < metrics.height
        },
{
}

/// An iTerm2 image placement covers at least one row and between one
/// column and the columns right of its anchor.
pub proof fn lemma_image_placement_fits_terminal(
    id: ImageId,
    placement_id: ImagePlacementId,
    image_width: u32,
    image_height: u32,
    width: Option<ImageDimension>,
    height: Option<ImageDimension>,
    anchor: GridPoint,
    terminal_columns: usize,
    metrics: CellMetrics,
)
    ensures
        spec_placement_for_image(id, placement_id, image_width, image_height, width, height, anchor, terminal_columns, metrics) matches Ok(p) ==> {
            &&& 1 <= p.columns <= available_columns(terminal_columns, anchor.col)
            &&& p.rows >= 1
        },
{
}

} // verus!
