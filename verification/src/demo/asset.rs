//! The `KFA2` animation asset: run-length encoded sprite frames and
//! fixed-point cape polygons.
//!
//! Layout (all integers little endian): the magic `KFA2`; width, height and
//! frame count (`u16`); cape layer count (`u8`); cape pose count (`u16`);
//! one descriptor per frame (name length `u8`, UTF-8 name, encoded length
//! `u32`); one record per cape layer (id `u8`, color `u8`, vertex count
//! `u16`); one name per cape pose (length `u8`, UTF-8 name); the run-length
//! data of every frame (runs of color `u8` and count `u16`); and, for every
//! pose and layer, the layer's vertices as pairs of `u16` in sixteenths of a
//! pixel.

use vstd::prelude::*;
use vstd::slice::slice_to_vec;
use vstd::utf8::{decode_utf8, valid_utf8};
use crate::demo::canvas::PaletteIndex;
use crate::text::string_from_utf8;

verus! {

/// Number of cape layers every asset carries, one of each id.
pub const REQUIRED_CAPE_LAYER_COUNT: usize = 6;

/// Sub-pixel steps per pixel of a cape vertex coordinate.
pub const FIXED_SCALE: u16 = 16;

/// Length of the fixed header (magic and counts).
pub const HEADER_LEN: usize = 13;

/// A color of an asset pixel.
#[derive(Clone, Copy, Debug, PartialEq, Eq, Structural)]
pub enum AssetColor {
    Transparent,
    Foreground,
    Accent,
    MidTone,
}

/// The layers of the knight's cape, back to front.
#[derive(Clone, Copy, Debug, PartialEq, Eq, Hash, Structural)]
pub enum CapeLayerId {
    CapeFar,
    CapeMain,
    CapeNear,
    CapeLower,
    RibbonFar,
    RibbonNear,
}

/// Why an asset was refused.
#[derive(Clone, Copy, Debug, PartialEq, Eq, Structural)]
pub enum AssetError {
    InvalidMagic,
    UnsupportedVersion(u8),
    InvalidDimensions { width: u16, height: u16 },
    InvalidFrameName,
    InvalidCapePoseName,
    InvalidColor(u8),
    InvalidCapeLayer(u8),
    DuplicateCapeLayer(u8),
    InvalidCapeTopology,
    InvalidVertex,
    Truncated,
    CorruptedRun,
    TrailingData,
}

/// A cape vertex in sixteenths of a pixel.
#[derive(Clone, Copy, Debug, PartialEq, Eq, Structural)]
pub struct FixedPoint {
    pub x: u16,
    pub y: u16,
}

/// A cape layer: its id, fill color and vertex count.
#[derive(Clone, Copy, Debug, PartialEq, Eq, Structural)]
pub struct CapeLayer {
    pub id: CapeLayerId,
    pub color: AssetColor,
    pub vertex_count: u16,
}

/// Decoded frame: name and pixels, row by row.
pub type FrameView = (Seq<char>, Seq<AssetColor>);

/// Decoded cape pose: name and the vertices of each layer.
pub type PoseView = (Seq<char>, Seq<Seq<FixedPoint>>);

/// The decoded content of an asset.
pub struct KfaModel {
    pub width: u16,
    pub height: u16,
    pub frames: Seq<FrameView>,
    pub cape_layers: Seq<CapeLayer>,
    pub cape_poses: Seq<PoseView>,
}

// ---------------------------------------------------------------------
// The format, as spec functions.
// ---------------------------------------------------------------------

/// Little-endian `u16` at `o`.
pub open spec fn le16(b: Seq<u8>, o: int) -> nat {
    (b[o] as nat) + 256 * (b[o + 1] as nat)
}

/// Little-endian `u32` at `o`.
pub open spec fn le32(b: Seq<u8>, o: int) -> nat {
    le16(b, o) + 65536 * le16(b, o + 2)
}

pub open spec fn spec_color(v: u8) -> Result<AssetColor, AssetError> {
    if v == 0 {
        Ok(AssetColor::Transparent)
    } else if v == 1 {
        Ok(AssetColor::Foreground)
    } else if v == 2 {
        Ok(AssetColor::Accent)
    } else if v == 3 {
        Ok(AssetColor::MidTone)
    } else {
        Err(AssetError::InvalidColor(v))
    }
}

pub open spec fn spec_layer_id(v: u8) -> Option<CapeLayerId> {
    if v == 0 {
        Some(CapeLayerId::CapeFar)
    } else if v == 1 {
        Some(CapeLayerId::CapeMain)
    } else if v == 2 {
        Some(CapeLayerId::CapeNear)
    } else if v == 3 {
        Some(CapeLayerId::CapeLower)
    } else if v == 4 {
        Some(CapeLayerId::RibbonFar)
    } else if v == 5 {
        Some(CapeLayerId::RibbonNear)
    } else {
        None
    }
}

/// Frame descriptors (name, encoded length): `n` more of them from `off`.
pub open spec fn descriptors_from(b: Seq<u8>, off: int, n: nat, acc: Seq<(Seq<char>, nat)>)
    -> Result<(Seq<(Seq<char>, nat)>, int), AssetError>
    decreases n,
{
    if n == 0 {
        Ok((acc, off))
    } else if off + 1 > b.len() {
        Err(AssetError::Truncated)
    } else {
        let start = off + 1;
        let end = start + b[off] as int;
        if end > b.len() {
            Err(AssetError::Truncated)
        } else if !valid_utf8(b.subrange(start, end)) {
            Err(AssetError::InvalidFrameName)
        } else if end + 4 > b.len() {
            Err(AssetError::Truncated)
        } else {
            descriptors_from(
                b,
                end + 4,
                (n - 1) as nat,
                acc.push((decode_utf8(b.subrange(start, end)), le32(b, end))),
            )
        }
    }
}

/// Whether a layer with `id` is among `layers`.
pub open spec fn layer_seen(layers: Seq<CapeLayer>, id: CapeLayerId) -> bool {
    exists|j: int| 0 <= j < layers.len() && (#[trigger] layers[j]).id == id
}

/// Cape layer records: `n` more of them from `off`.
pub open spec fn layers_from(b: Seq<u8>, off: int, n: nat, acc: Seq<CapeLayer>)
    -> Result<(Seq<CapeLayer>, int), AssetError>
    decreases n,
{
    if n == 0 {
        Ok((acc, off))
    } else if off + 1 > b.len() {
        Err(AssetError::Truncated)
    } else {
        let raw = b[off];
        match spec_layer_id(raw) {
            None => Err(AssetError::InvalidCapeLayer(raw)),
            Some(id) => if layer_seen(acc, id) {
                Err(AssetError::DuplicateCapeLayer(raw))
            } else if off + 2 > b.len() {
                Err(AssetError::Truncated)
            } else {
                match spec_color(b[off + 1]) {
                    Err(e) => Err(e),
                    Ok(color) => if off + 4 > b.len() {
                        Err(AssetError::Truncated)
                    } else if le16(b, off + 2) < 3 {
                        Err(AssetError::InvalidCapeTopology)
                    } else {
                        layers_from(
                            b,
                            off + 4,
                            (n - 1) as nat,
                            acc.push(CapeLayer { id, color, vertex_count: le16(b, off + 2) as u16 }),
                        )
                    },
                }
            },
        }
    }
}

/// Cape pose names: `n` more of them from `off`.
pub open spec fn names_from(b: Seq<u8>, off: int, n: nat, acc: Seq<Seq<char>>)
    -> Result<(Seq<Seq<char>>, int), AssetError>
    decreases n,
{
    if n == 0 {
        Ok((acc, off))
    } else if off + 1 > b.len() {
        Err(AssetError::Truncated)
    } else {
        let start = off + 1;
        let end = start + b[off] as int;
        if end > b.len() {
            Err(AssetError::Truncated)
        } else if !valid_utf8(b.subrange(start, end)) {
            Err(AssetError::InvalidCapePoseName)
        } else {
            names_from(b, end, (n - 1) as nat, acc.push(decode_utf8(b.subrange(start, end))))
        }
    }
}

/// Run-length data from `off` on, appended to the pixels `acc`.
pub open spec fn rle_from(data: Seq<u8>, off: int, acc: Seq<AssetColor>, expected: nat)
    -> Result<Seq<AssetColor>, AssetError>
    decreases data.len() - off,
{
    if off >= data.len() {
        if acc.len() == expected {
            Ok(acc)
        } else {
            Err(AssetError::Truncated)
        }
    } else {
        match spec_color(data[off]) {
            Err(e) => Err(e),
            Ok(color) => if off + 3 > data.len() {
                Err(AssetError::Truncated)
            } else if le16(data, off + 1) == 0 {
                Err(AssetError::CorruptedRun)
            } else if acc.len() + le16(data, off + 1) > expected {
                Err(AssetError::CorruptedRun)
            } else {
                rle_from(data, off + 3, acc + Seq::new(le16(data, off + 1), |_i: int| color), expected)
            },
        }
    }
}

/// The pixels that run-length data decodes to, `expected` of them.
pub open spec fn spec_decode_rle(data: Seq<u8>, expected: nat) -> Result<Seq<AssetColor>, AssetError> {
    rle_from(data, 0, Seq::empty(), expected)
}

/// Frame data for the descriptors from index `k` on.
pub open spec fn frames_from(
    b: Seq<u8>,
    off: int,
    descs: Seq<(Seq<char>, nat)>,
    k: int,
    expected: nat,
    acc: Seq<FrameView>,
) -> Result<(Seq<FrameView>, int), AssetError>
    decreases descs.len() - k,
{
    if k >= descs.len() {
        Ok((acc, off))
    } else if off + descs[k].1 > b.len() {
        Err(AssetError::Truncated)
    } else {
        match spec_decode_rle(b.subrange(off, off + descs[k].1), expected) {
            Err(e) => Err(e),
            Ok(pixels) => frames_from(
                b,
                off + descs[k].1,
                descs,
                k + 1,
                expected,
                acc.push((descs[k].0, pixels)),
            ),
        }
    }
}

/// Whether a vertex lies on the `width` x `height` canvas.
pub open spec fn vertex_in_bounds(x: nat, y: nat, width: u16, height: u16) -> bool {
    x <= 16 * width && y <= 16 * height
}

/// `n` more vertices from `off`.
pub open spec fn vertices_from(b: Seq<u8>, off: int, n: nat, width: u16, height: u16, acc: Seq<FixedPoint>)
    -> Result<(Seq<FixedPoint>, int), AssetError>
    decreases n,
{
    if n == 0 {
        Ok((acc, off))
    } else if off + 4 > b.len() {
        Err(AssetError::Truncated)
    } else if !vertex_in_bounds(le16(b, off), le16(b, off + 2), width, height) {
        Err(AssetError::InvalidVertex)
    } else {
        vertices_from(
            b,
            off + 4,
            (n - 1) as nat,
            width,
            height,
            acc.push(FixedPoint { x: le16(b, off) as u16, y: le16(b, off + 2) as u16 }),
        )
    }
}

/// Continue a pose's layers once the vertices of layer `k` are read.
pub open spec fn after_layer_vertices(
    b: Seq<u8>,
    r: Result<(Seq<FixedPoint>, int), AssetError>,
    layers: Seq<CapeLayer>,
    k: int,
    width: u16,
    height: u16,
    acc: Seq<Seq<FixedPoint>>,
) -> Result<(Seq<Seq<FixedPoint>>, int), AssetError>
    decreases layers.len() - k, 0nat,
{
    match r {
        Err(e) => Err(e),
        Ok((vertices, o)) => if k < layers.len() {
            pose_layers_from(b, o, layers, k + 1, width, height, acc.push(vertices))
        } else {
            Ok((acc, o))
        },
    }
}

/// The vertices of every layer of one pose, from layer `k` on.
pub open spec fn pose_layers_from(
    b: Seq<u8>,
    off: int,
    layers: Seq<CapeLayer>,
    k: int,
    width: u16,
    height: u16,
    acc: Seq<Seq<FixedPoint>>,
) -> Result<(Seq<Seq<FixedPoint>>, int), AssetError>
    decreases layers.len() - k, 1nat,
{
    if k >= layers.len() {
        Ok((acc, off))
    } else {
        after_layer_vertices(
            b,
            vertices_from(b, off, layers[k].vertex_count as nat, width, height, Seq::empty()),
            layers,
            k,
            width,
            height,
            acc,
        )
    }
}

/// Continue the poses once pose `k`'s layers are read.
pub open spec fn after_pose(
    b: Seq<u8>,
    r: Result<(Seq<Seq<FixedPoint>>, int), AssetError>,
    names: Seq<Seq<char>>,
    k: int,
    layers: Seq<CapeLayer>,
    width: u16,
    height: u16,
    acc: Seq<PoseView>,
) -> Result<(Seq<PoseView>, int), AssetError>
    decreases names.len() - k, 0nat,
{
    match r {
        Err(e) => Err(e),
        Ok((pose, o)) => if k < names.len() {
            poses_from(b, o, names, k + 1, layers, width, height, acc.push((names[k], pose)))
        } else {
            Ok((acc, o))
        },
    }
}

/// The cape poses from pose `k` on.
pub open spec fn poses_from(
    b: Seq<u8>,
    off: int,
    names: Seq<Seq<char>>,
    k: int,
    layers: Seq<CapeLayer>,
    width: u16,
    height: u16,
    acc: Seq<PoseView>,
) -> Result<(Seq<PoseView>, int), AssetError>
    decreases names.len() - k, 1nat,
{
    if k >= names.len() {
        Ok((acc, off))
    } else {
        after_pose(
            b,
            pose_layers_from(b, off, layers, 0, width, height, Seq::empty()),
            names,
            k,
            layers,
            width,
            height,
            acc,
        )
    }
}

pub open spec fn after_poses(
    b: Seq<u8>,
    r: Result<(Seq<PoseView>, int), AssetError>,
    frames: Seq<FrameView>,
    layers: Seq<CapeLayer>,
    width: u16,
    height: u16,
) -> Result<KfaModel, AssetError> {
    match r {
        Err(e) => Err(e),
        Ok((poses, o)) => if o != b.len() {
            Err(AssetError::TrailingData)
        } else {
            Ok(KfaModel { width, height, frames, cape_layers: layers, cape_poses: poses })
        },
    }
}

pub open spec fn after_frames(
    b: Seq<u8>,
    r: Result<(Seq<FrameView>, int), AssetError>,
    names: Seq<Seq<char>>,
    layers: Seq<CapeLayer>,
    width: u16,
    height: u16,
) -> Result<KfaModel, AssetError> {
    match r {
        Err(e) => Err(e),
        Ok((frames, o)) => after_poses(
            b,
            poses_from(b, o, names, 0, layers, width, height, Seq::empty()),
            frames,
            layers,
            width,
            height,
        ),
    }
}

pub open spec fn after_names(
    b: Seq<u8>,
    r: Result<(Seq<Seq<char>>, int), AssetError>,
    descs: Seq<(Seq<char>, nat)>,
    layers: Seq<CapeLayer>,
    width: u16,
    height: u16,
) -> Result<KfaModel, AssetError> {
    match r {
        Err(e) => Err(e),
        Ok((names, o)) => after_frames(
            b,
            frames_from(b, o, descs, 0, (width * height) as nat, Seq::empty()),
            names,
            layers,
            width,
            height,
        ),
    }
}

pub open spec fn after_layers(
    b: Seq<u8>,
    r: Result<(Seq<CapeLayer>, int), AssetError>,
    descs: Seq<(Seq<char>, nat)>,
    pose_count: nat,
    width: u16,
    height: u16,
) -> Result<KfaModel, AssetError> {
    match r {
        Err(e) => Err(e),
        Ok((layers, o)) => after_names(
            b,
            names_from(b, o, pose_count, Seq::empty()),
            descs,
            layers,
            width,
            height,
        ),
    }
}

pub open spec fn after_descriptors(
    b: Seq<u8>,
    r: Result<(Seq<(Seq<char>, nat)>, int), AssetError>,
    pose_count: nat,
    width: u16,
    height: u16,
) -> Result<KfaModel, AssetError> {
    match r {
        Err(e) => Err(e),
        Ok((descs, o)) => after_layers(
            b,
            layers_from(b, o, REQUIRED_CAPE_LAYER_COUNT as nat, Seq::empty()),
            descs,
            pose_count,
            width,
            height,
        ),
    }
}

/// Whether `b` starts with the bytes `KFA`.
pub open spec fn has_family_magic(b: Seq<u8>) -> bool {
    b[0] == 0x4b && b[1] == 0x46 && b[2] == 0x41
}

/// What `KfaAsset::from_bytes` makes of `b`.
pub open spec fn spec_parse_kfa(b: Seq<u8>) -> Result<KfaModel, AssetError> {
    if b.len() < 4 {
        Err(AssetError::Truncated)
    } else if !(has_family_magic(b) && b[3] == 0x32) {
        if has_family_magic(b) {
            Err(AssetError::UnsupportedVersion(b[3]))
        } else {
            Err(AssetError::InvalidMagic)
        }
    } else if b.len() < HEADER_LEN {
        Err(AssetError::Truncated)
    } else if b[10] != REQUIRED_CAPE_LAYER_COUNT || le16(b, 11) == 0 {
        Err(AssetError::InvalidCapeTopology)
    } else {
        after_descriptors(
            b,
            descriptors_from(b, HEADER_LEN as int, le16(b, 8), Seq::empty()),
            le16(b, 11),
            le16(b, 4) as u16,
            le16(b, 6) as u16,
        )
    }
}

// ---------------------------------------------------------------------
// Values.
// ---------------------------------------------------------------------

impl AssetColor {
    pub open spec fn spec_palette(self) -> Option<PaletteIndex> {
        match self {
            AssetColor::Transparent => None,
            AssetColor::Foreground => Some(PaletteIndex::Foreground),
            AssetColor::Accent => Some(PaletteIndex::Accent),
            AssetColor::MidTone => Some(PaletteIndex::MidTone),
        }
    }

    /// The palette index a pixel of this color is drawn with; none for
    /// transparent pixels.
    pub fn to_palette(self) -> (r: Option<PaletteIndex>)
        ensures
            r == self.spec_palette(),
    {
        match self {
            AssetColor::Transparent => None,
            AssetColor::Foreground => Some(PaletteIndex::Foreground),
            AssetColor::Accent => Some(PaletteIndex::Accent),
            AssetColor::MidTone => Some(PaletteIndex::MidTone),
        }
    }

    fn from_u8(value: u8) -> (r: Result<Self, AssetError>)
        ensures
            r == spec_color(value),
    {
        match value {
            0 => Ok(AssetColor::Transparent),
            1 => Ok(AssetColor::Foreground),
            2 => Ok(AssetColor::Accent),
            3 => Ok(AssetColor::MidTone),
            _ => Err(AssetError::InvalidColor(value)),
        }
    }
}

/// The name of a cape layer id.
pub open spec fn layer_id_name(id: CapeLayerId) -> Seq<char> {
    match id {
        CapeLayerId::CapeFar => seq!['c', 'a', 'p', 'e', '_', 'f', 'a', 'r'],
        CapeLayerId::CapeMain => seq!['c', 'a', 'p', 'e', '_', 'm', 'a', 'i', 'n'],
        CapeLayerId::CapeNear => seq!['c', 'a', 'p', 'e', '_', 'n', 'e', 'a', 'r'],
        CapeLayerId::CapeLower => seq!['c', 'a', 'p', 'e', '_', 'l', 'o', 'w', 'e', 'r'],
        CapeLayerId::RibbonFar => seq!['r', 'i', 'b', 'b', 'o', 'n', '_', 'f', 'a', 'r'],
        CapeLayerId::RibbonNear => seq!['r', 'i', 'b', 'b', 'o', 'n', '_', 'n', 'e', 'a', 'r'],
    }
}

impl CapeLayerId {
    /// The layer id stored as `value`, if any.
    pub fn from_u8(value: u8) -> (r: Option<Self>)
        ensures
            r == spec_layer_id(value),
    {
        match value {
            0 => Some(CapeLayerId::CapeFar),
            1 => Some(CapeLayerId::CapeMain),
            2 => Some(CapeLayerId::CapeNear),
            3 => Some(CapeLayerId::CapeLower),
            4 => Some(CapeLayerId::RibbonFar),
            5 => Some(CapeLayerId::RibbonNear),
            _ => None,
        }
    }

    /// The name of the layer.
    pub fn as_str(self) -> (r: &'static str)
        ensures
            r@ == layer_id_name(self),
    {
        match self {
            CapeLayerId::CapeFar => {
                proof { reveal_strlit("cape_far"); }
                "cape_far"
            },
            CapeLayerId::CapeMain => {
                proof { reveal_strlit("cape_main"); }
                "cape_main"
            },
            CapeLayerId::CapeNear => {
                proof { reveal_strlit("cape_near"); }
                "cape_near"
            },
            CapeLayerId::CapeLower => {
                proof { reveal_strlit("cape_lower"); }
                "cape_lower"
            },
            CapeLayerId::RibbonFar => {
                proof { reveal_strlit("ribbon_far"); }
                "ribbon_far"
            },
            CapeLayerId::RibbonNear => {
                proof { reveal_strlit("ribbon_near"); }
                "ribbon_near"
            },
        }
    }
}

impl CapeLayer {
    pub open spec fn spec_id(self) -> CapeLayerId {
        self.id
    }

    pub open spec fn spec_color(self) -> AssetColor {
        self.color
    }

    pub open spec fn spec_vertex_count(self) -> u16 {
        self.vertex_count
    }

    pub fn id(self) -> (r: CapeLayerId)
        ensures
            r == self.spec_id(),
    {
        self.id
    }

    pub fn color(self) -> (r: AssetColor)
        ensures
            r == self.spec_color(),
    {
        self.color
    }

    pub fn vertex_count(self) -> (r: u16)
        ensures
            r == self.spec_vertex_count(),
    {
        self.vertex_count
    }
}

// ---------------------------------------------------------------------
// Reading bytes.
// ---------------------------------------------------------------------

struct Cursor<'a> {
    bytes: &'a [u8],
    offset: usize,
}

impl<'a> Cursor<'a> {
    fn new(bytes: &'a [u8]) -> (c: Self)
        ensures
            c.bytes@ == bytes@,
            c.offset == 0,
    {
        Cursor { bytes, offset: 0 }
    }

    fn remaining(&self) -> (r: usize)
        requires
            self.offset <= self.bytes@.len(),
        ensures
            r == self.bytes@.len() - self.offset,
    {
        self.bytes.len() - self.offset
    }

    fn read_bytes(&mut self, len: usize) -> (r: Result<&'a [u8], AssetError>)
        requires
            old(self).offset <= old(self).bytes@.len(),
        ensures
            final(self).bytes@ == old(self).bytes@,
            final(self).offset <= final(self).bytes@.len(),
            old(self).offset + len <= old(self).bytes@.len() ==> {
                &&& r matches Ok(s)
                &&& s@ == old(self).bytes@.subrange(old(self).offset as int, old(self).offset + len)
                &&& final(self).offset == old(self).offset + len
            },
            old(self).offset + len > old(self).bytes@.len() ==> r == Err::<&'a [u8], AssetError>(AssetError::Truncated),
    {
        if len > self.bytes.len() - self.offset {
            return Err(AssetError::Truncated);
        }
        let end = self.offset + len;
        let s = &self.bytes[self.offset..end];
        self.offset = end;
        Ok(s)
    }

    fn read_u8(&mut self) -> (r: Result<u8, AssetError>)
        requires
            old(self).offset <= old(self).bytes@.len(),
        ensures
            final(self).bytes@ == old(self).bytes@,
            final(self).offset <= final(self).bytes@.len(),
            old(self).offset + 1 <= old(self).bytes@.len() ==> {
                &&& r == Ok::<u8, AssetError>(old(self).bytes@[old(self).offset as int])
                &&& final(self).offset == old(self).offset + 1
            },
            old(self).offset + 1 > old(self).bytes@.len() ==> r == Err::<u8, AssetError>(AssetError::Truncated),
    {
        if self.offset >= self.bytes.len() {
            return Err(AssetError::Truncated);
        }
        let v = self.bytes[self.offset];
        self.offset = self.offset + 1;
        Ok(v)
    }

    fn read_u16(&mut self) -> (r: Result<u16, AssetError>)
        requires
            old(self).offset <= old(self).bytes@.len(),
        ensures
            final(self).bytes@ == old(self).bytes@,
            final(self).offset <= final(self).bytes@.len(),
            old(self).offset + 2 <= old(self).bytes@.len() ==> {
                &&& r matches Ok(v)
                &&& v as nat == le16(old(self).bytes@, old(self).offset as int)
                &&& final(self).offset == old(self).offset + 2
            },
            old(self).offset + 2 > old(self).bytes@.len() ==> r == Err::<u16, AssetError>(AssetError::Truncated),
    {
        if self.bytes.len() - self.offset < 2 {
            return Err(AssetError::Truncated);
        }
        let lo = self.bytes[self.offset] as u16;
        let hi = self.bytes[self.offset + 1] as u16;
        self.offset = self.offset + 2;
        Ok(lo + 256 * hi)
    }

    fn read_u32(&mut self) -> (r: Result<u32, AssetError>)
        requires
            old(self).offset <= old(self).bytes@.len(),
        ensures
            final(self).bytes@ == old(self).bytes@,
            final(self).offset <= final(self).bytes@.len(),
            old(self).offset + 4 <= old(self).bytes@.len() ==> {
                &&& r matches Ok(v)
                &&& v as nat == le32(old(self).bytes@, old(self).offset as int)
                &&& final(self).offset == old(self).offset + 4
            },
            old(self).offset + 4 > old(self).bytes@.len() ==> r == Err::<u32, AssetError>(AssetError::Truncated),
    {
        if self.bytes.len() - self.offset < 4 {
            return Err(AssetError::Truncated);
        }
        let o = self.offset;
        let b0 = self.bytes[o] as u32;
        let b1 = self.bytes[o + 1] as u32;
        let b2 = self.bytes[o + 2] as u32;
        let b3 = self.bytes[o + 3] as u32;
        self.offset = o + 4;
        Ok(b0 + 256 * b1 + 65536 * (b2 + 256 * b3))
    }
}


// ---------------------------------------------------------------------
// The decoded asset.
// ---------------------------------------------------------------------

/// A sprite frame: its name and its pixels, row by row.
#[derive(Clone, Debug)]
pub struct AssetFrame {
    name: String,
    pixels: Vec<AssetColor>,
}

impl View for AssetFrame {
    type V = FrameView;

    closed spec fn view(&self) -> FrameView {
        (self.name@, self.pixels@)
    }
}

#[derive(Clone, Debug)]
struct CapePoseLayer {
    vertices: Vec<FixedPoint>,
}

impl View for CapePoseLayer {
    type V = Seq<FixedPoint>;

    closed spec fn view(&self) -> Seq<FixedPoint> {
        self.vertices@
    }
}

/// A cape pose: its name and the vertices of each cape layer.
#[derive(Clone, Debug)]
pub struct CapePose {
    name: String,
    layers: Vec<CapePoseLayer>,
}

pub open spec fn pose_layers_view(layers: Seq<CapePoseLayer>) -> Seq<Seq<FixedPoint>> {
    layers.map_values(|l: CapePoseLayer| l@)
}

impl View for CapePose {
    type V = PoseView;

    closed spec fn view(&self) -> PoseView {
        (self.name@, pose_layers_view(self.layers@))
    }
}

/// A decoded `KFA2` asset.
#[derive(Clone, Debug)]
pub struct KfaAsset {
    width: u16,
    height: u16,
    frames: Vec<AssetFrame>,
    cape_layers: Vec<CapeLayer>,
    cape_poses: Vec<CapePose>,
}

pub open spec fn frames_view(frames: Seq<AssetFrame>) -> Seq<FrameView> {
    frames.map_values(|f: AssetFrame| f@)
}

pub open spec fn poses_view(poses: Seq<CapePose>) -> Seq<PoseView> {
    poses.map_values(|p: CapePose| p@)
}

impl View for KfaAsset {
    type V = KfaModel;

    closed spec fn view(&self) -> KfaModel {
        KfaModel {
            width: self.width,
            height: self.height,
            frames: frames_view(self.frames@),
            cape_layers: self.cape_layers@,
            cape_poses: poses_view(self.cape_poses@),
        }
    }
}

pub open spec fn asset_result(r: Result<KfaAsset, AssetError>) -> Result<KfaModel, AssetError> {
    match r {
        Ok(a) => Ok(a@),
        Err(e) => Err(e),
    }
}

pub open spec fn pixels_result(r: Result<Vec<AssetColor>, AssetError>) -> Result<Seq<AssetColor>, AssetError> {
    match r {
        Ok(p) => Ok(p@),
        Err(e) => Err(e),
    }
}

pub open spec fn descs_view(v: Seq<(String, usize)>) -> Seq<(Seq<char>, nat)> {
    v.map_values(|d: (String, usize)| (d.0@, d.1 as nat))
}

pub open spec fn names_view(v: Seq<String>) -> Seq<Seq<char>> {
    v.map_values(|s: String| s@)
}

/// Whether a layer with `id` is in `layers`.
fn contains_layer(layers: &Vec<CapeLayer>, id: CapeLayerId) -> (r: bool)
    ensures
        r == layer_seen(layers@, id),
{
    let mut j: usize = 0;
    while j < layers.len()
        invariant
            j <= layers@.len(),
            forall|k: int| 0 <= k < j ==> (#[trigger] layers@[k]).id != id,
        decreases layers@.len() - j,
    {
        if layers[j].id == id {
            assert(layers@[j as int].id == id);
            return true;
        }
        j = j + 1;
    }
    false
}

/// Read a length-prefixed UTF-8 name; `invalid` when it is not UTF-8.
fn read_name(cursor: &mut Cursor, invalid: AssetError) -> (r: Result<String, AssetError>)
    requires
        old(cursor).offset <= old(cursor).bytes@.len(),
    ensures
        final(cursor).bytes@ == old(cursor).bytes@,
        final(cursor).offset <= final(cursor).bytes@.len(),
        ({
            let b = old(cursor).bytes@;
            let off = old(cursor).offset as int;
            if off + 1 > b.len() {
                r == Err::<String, AssetError>(AssetError::Truncated)
            } else if off + 1 + b[off] > b.len() {
                r == Err::<String, AssetError>(AssetError::Truncated)
            } else if !valid_utf8(b.subrange(off + 1, off + 1 + b[off])) {
                r == Err::<String, AssetError>(invalid)
            } else {
                &&& r matches Ok(name)
                &&& name@ == decode_utf8(b.subrange(off + 1, off + 1 + b[off]))
                &&& final(cursor).offset == off + 1 + b[off]
            }
        }),
{
    let name_len = match cursor.read_u8() {
        Ok(v) => v,
        Err(e) => return Err(e),
    };
    let raw = match cursor.read_bytes(name_len as usize) {
        Ok(s) => s,
        Err(e) => return Err(e),
    };
    match string_from_utf8(slice_to_vec(raw)) {
        Some(name) => Ok(name),
        None => Err(invalid),
    }
}

/// Decode run-length data into exactly `expected_pixels` pixels.
fn decode_rle(data: &[u8], expected_pixels: usize) -> (r: Result<Vec<AssetColor>, AssetError>)
    ensures
        pixels_result(r) == spec_decode_rle(data@, expected_pixels as nat),
{
    let mut cursor = Cursor::new(data);
    let mut pixels: Vec<AssetColor> = Vec::new();
    assert(pixels@ =~= Seq::<AssetColor>::empty());
    while cursor.remaining() > 0
        invariant
            cursor.bytes@ == data@,
            cursor.offset <= data@.len(),
            pixels@.len() <= expected_pixels,
            spec_decode_rle(data@, expected_pixels as nat)
                == rle_from(data@, cursor.offset as int, pixels@, expected_pixels as nat),
        decreases data@.len() - cursor.offset,
    {
        let ghost off = cursor.offset as int;
        let raw = match cursor.read_u8() {
            Ok(v) => v,
            Err(e) => return Err(e),
        };
        let color = match AssetColor::from_u8(raw) {
            Ok(c) => c,
            Err(e) => return Err(e),
        };
        let count = match cursor.read_u16() {
            Ok(v) => v as usize,
            Err(e) => return Err(e),
        };
        if count == 0 {
            return Err(AssetError::CorruptedRun);
        }
        if count > expected_pixels - pixels.len() {
            return Err(AssetError::CorruptedRun);
        }
        let ghost before = pixels@;
        let mut n: usize = 0;
        while n < count
            invariant
                n <= count,
                before.len() + count <= expected_pixels,
                pixels@ == before + Seq::new(n as nat, |_i: int| color),
            decreases count - n,
        {
            pixels.push(color);
            n = n + 1;
            assert(pixels@ =~= before + Seq::new(n as nat, |_i: int| color));
        }
        assert(Seq::new(count as nat, |_i: int| color) =~= Seq::new(le16(data@, off + 1), |_i: int| color));
    }
    if pixels.len() != expected_pixels {
        return Err(AssetError::Truncated);
    }
    Ok(pixels)
}


impl KfaAsset {
    /// Decode an asset, checking every field of the format.
    pub fn from_bytes(bytes: &[u8]) -> (r: Result<KfaAsset, AssetError>)
        ensures
            asset_result(r) == spec_parse_kfa(bytes@),
    {
        let ghost b = bytes@;
        let mut cursor = Cursor::new(bytes);
        let magic = match cursor.read_bytes(4) {
            Ok(m) => m,
            Err(e) => return Err(e),
        };
        if !(magic[0] == 0x4b && magic[1] == 0x46 && magic[2] == 0x41 && magic[3] == 0x32) {
            if magic[0] == 0x4b && magic[1] == 0x46 && magic[2] == 0x41 {
                return Err(AssetError::UnsupportedVersion(magic[3]));
            }
            return Err(AssetError::InvalidMagic);
        }
        let width = match cursor.read_u16() {
            Ok(v) => v,
            Err(e) => return Err(e),
        };
        let height = match cursor.read_u16() {
            Ok(v) => v,
            Err(e) => return Err(e),
        };
        let frame_count = match cursor.read_u16() {
            Ok(v) => v,
            Err(e) => return Err(e),
        };
        let cape_layer_count = match cursor.read_u8() {
            Ok(v) => v,
            Err(e) => return Err(e),
        };
        let cape_pose_count = match cursor.read_u16() {
            Ok(v) => v,
            Err(e) => return Err(e),
        };
        assert((width as nat) * (height as nat) <= 65535 * 65535) by (nonlinear_arith)
            requires
                width <= 65535,
                height <= 65535,
        ;
        let expected_pixels = (width as usize) * (height as usize);
        if cape_layer_count as usize != REQUIRED_CAPE_LAYER_COUNT || cape_pose_count == 0 {
            return Err(AssetError::InvalidCapeTopology);
        }
        assert(cursor.offset == HEADER_LEN);

        // Frame descriptors.
        let mut descs: Vec<(String, usize)> = Vec::new();
        assert(descs_view(descs@) =~= Seq::<(Seq<char>, nat)>::empty());
        let mut i: u16 = 0;
        while i < frame_count
            invariant
                b == bytes@,
                cursor.bytes@ == b,
                cursor.offset <= b.len(),
                i <= frame_count,
                spec_parse_kfa(b) == after_descriptors(
                    b,
                    descriptors_from(b, cursor.offset as int, (frame_count - i) as nat, descs_view(descs@)),
                    cape_pose_count as nat,
                    width,
                    height,
                ),
            decreases frame_count - i,
        {
            let ghost off = cursor.offset as int;
            let name = match read_name(&mut cursor, AssetError::InvalidFrameName) {
                Ok(n) => n,
                Err(e) => return Err(e),
            };
            let byte_len = match cursor.read_u32() {
                Ok(v) => v as usize,
                Err(e) => return Err(e),
            };
            let ghost entry = (name@, byte_len as nat);
            let ghost prev = descs_view(descs@);
            descs.push((name, byte_len));
            assert(descs_view(descs@) =~= prev.push(entry)) by {
                assert(descs_view(descs@).len() == prev.push(entry).len());
            }
            i = i + 1;
        }

        // Cape layers.
        let mut cape_layers: Vec<CapeLayer> = Vec::new();
        let mut i: usize = 0;
        while i < REQUIRED_CAPE_LAYER_COUNT
            invariant
                b == bytes@,
                cursor.bytes@ == b,
                cursor.offset <= b.len(),
                i <= REQUIRED_CAPE_LAYER_COUNT,
                spec_parse_kfa(b) == after_layers(
                    b,
                    layers_from(b, cursor.offset as int, (REQUIRED_CAPE_LAYER_COUNT - i) as nat, cape_layers@),
                    descs_view(descs@),
                    cape_pose_count as nat,
                    width,
                    height,
                ),
            decreases REQUIRED_CAPE_LAYER_COUNT - i,
        {
            let raw_id = match cursor.read_u8() {
                Ok(v) => v,
                Err(e) => return Err(e),
            };
            let id = match CapeLayerId::from_u8(raw_id) {
                Some(id) => id,
                None => return Err(AssetError::InvalidCapeLayer(raw_id)),
            };
            if contains_layer(&cape_layers, id) {
                return Err(AssetError::DuplicateCapeLayer(raw_id));
            }
            let raw_color = match cursor.read_u8() {
                Ok(v) => v,
                Err(e) => return Err(e),
            };
            let color = match AssetColor::from_u8(raw_color) {
                Ok(c) => c,
                Err(e) => return Err(e),
            };
            let vertex_count = match cursor.read_u16() {
                Ok(v) => v,
                Err(e) => return Err(e),
            };
            if vertex_count < 3 {
                return Err(AssetError::InvalidCapeTopology);
            }
            cape_layers.push(CapeLayer { id, color, vertex_count });
            i = i + 1;
        }

        // Cape pose names.
        let mut names: Vec<String> = Vec::new();
        assert(names_view(names@) =~= Seq::<Seq<char>>::empty());
        let mut i: u16 = 0;
        while i < cape_pose_count
            invariant
                b == bytes@,
                cursor.bytes@ == b,
                cursor.offset <= b.len(),
                i <= cape_pose_count,
                spec_parse_kfa(b) == after_names(
                    b,
                    names_from(b, cursor.offset as int, (cape_pose_count - i) as nat, names_view(names@)),
                    descs_view(descs@),
                    cape_layers@,
                    width,
                    height,
                ),
            decreases cape_pose_count - i,
        {
            let name = match read_name(&mut cursor, AssetError::InvalidCapePoseName) {
                Ok(n) => n,
                Err(e) => return Err(e),
            };
            let ghost entry = name@;
            let ghost prev = names_view(names@);
            names.push(name);
            assert(names_view(names@) =~= prev.push(entry)) by {
                assert(names_view(names@).len() == prev.push(entry).len());
            }
            i = i + 1;
        }

        // Frame pixels.
        let mut frames: Vec<AssetFrame> = Vec::new();
        assert(frames_view(frames@) =~= Seq::<FrameView>::empty());
        let mut k: usize = 0;
        while k < descs.len()
            invariant
                b == bytes@,
                cursor.bytes@ == b,
                cursor.offset <= b.len(),
                k <= descs@.len(),
                expected_pixels == (width * height) as nat,
                spec_parse_kfa(b) == after_frames(
                    b,
                    frames_from(b, cursor.offset as int, descs_view(descs@), k as int, expected_pixels as nat, frames_view(frames@)),
                    names_view(names@),
                    cape_layers@,
                    width,
                    height,
                ),
            decreases descs@.len() - k,
        {
            let data = match cursor.read_bytes(descs[k].1) {
                Ok(d) => d,
                Err(e) => return Err(e),
            };
            let pixels = match decode_rle(data, expected_pixels) {
                Ok(p) => p,
                Err(e) => return Err(e),
            };
            let frame = AssetFrame { name: descs[k].0.clone(), pixels };
            let ghost entry = frame@;
            let ghost prev = frames_view(frames@);
            frames.push(frame);
            assert(frames_view(frames@) =~= prev.push(entry)) by {
                assert(frames_view(frames@).len() == prev.push(entry).len());
            }
            k = k + 1;
        }

        // Cape poses.
        let mut poses: Vec<CapePose> = Vec::new();
        assert(poses_view(poses@) =~= Seq::<PoseView>::empty());
        let mut k: usize = 0;
        while k < names.len()
            invariant
                b == bytes@,
                cursor.bytes@ == b,
                cursor.offset <= b.len(),
                k <= names@.len(),
                spec_parse_kfa(b) == after_poses(
                    b,
                    poses_from(b, cursor.offset as int, names_view(names@), k as int, cape_layers@, width, height, poses_view(poses@)),
                    frames_view(frames@),
                    cape_layers@,
                    width,
                    height,
                ),
            decreases names@.len() - k,
        {
            let mut layers: Vec<CapePoseLayer> = Vec::new();
            assert(pose_layers_view(layers@) =~= Seq::<Seq<FixedPoint>>::empty());
            let mut li: usize = 0;
            while li < cape_layers.len()
                invariant
                    b == bytes@,
                    cursor.bytes@ == b,
                    cursor.offset <= b.len(),
                    k < names@.len(),
                    li <= cape_layers@.len(),
                    spec_parse_kfa(b) == after_poses(
                        b,
                        after_pose(
                            b,
                            pose_layers_from(b, cursor.offset as int, cape_layers@, li as int, width, height, pose_layers_view(layers@)),
                            names_view(names@),
                            k as int,
                            cape_layers@,
                            width,
                            height,
                            poses_view(poses@),
                        ),
                        frames_view(frames@),
                        cape_layers@,
                        width,
                        height,
                    ),
                decreases cape_layers@.len() - li,
            {
                let count = cape_layers[li].vertex_count;
                let mut vertices: Vec<FixedPoint> = Vec::new();
                let mut v: u16 = 0;
                while v < count
                    invariant
                        b == bytes@,
                        cursor.bytes@ == b,
                        cursor.offset <= b.len(),
                        k < names@.len(),
                        li < cape_layers@.len(),
                        v <= count,
                        spec_parse_kfa(b) == after_poses(
                            b,
                            after_pose(
                                b,
                                after_layer_vertices(
                                    b,
                                    vertices_from(b, cursor.offset as int, (count - v) as nat, width, height, vertices@),
                                    cape_layers@,
                                    li as int,
                                    width,
                                    height,
                                    pose_layers_view(layers@),
                                ),
                                names_view(names@),
                                k as int,
                                cape_layers@,
                                width,
                                height,
                                poses_view(poses@),
                            ),
                            frames_view(frames@),
                            cape_layers@,
                            width,
                            height,
                        ),
                    decreases count - v,
                {
                    if cursor.remaining() < 4 {
                        return Err(AssetError::Truncated);
                    }
                    let x = match cursor.read_u16() {
                        Ok(x) => x,
                        Err(e) => return Err(e),
                    };
                    let y = match cursor.read_u16() {
                        Ok(y) => y,
                        Err(e) => return Err(e),
                    };
                    if x as u32 > FIXED_SCALE as u32 * width as u32 || y as u32 > FIXED_SCALE as u32 * height as u32 {
                        return Err(AssetError::InvalidVertex);
                    }
                    vertices.push(FixedPoint { x, y });
                    v = v + 1;
                }
                let layer = CapePoseLayer { vertices };
                let ghost entry = layer@;
                let ghost prev = pose_layers_view(layers@);
                layers.push(layer);
                assert(pose_layers_view(layers@) =~= prev.push(entry)) by {
                    assert(pose_layers_view(layers@).len() == prev.push(entry).len());
                }
                li = li + 1;
            }
            let pose = CapePose { name: names[k].clone(), layers };
            let ghost entry = pose@;
            let ghost prev = poses_view(poses@);
            poses.push(pose);
            assert(poses_view(poses@) =~= prev.push(entry)) by {
                assert(poses_view(poses@).len() == prev.push(entry).len());
            }
            k = k + 1;
        }

        if cursor.remaining() != 0 {
            return Err(AssetError::TrailingData);
        }
        let asset = KfaAsset { width, height, frames, cape_layers, cape_poses: poses };
        assert(asset@ == (KfaModel {
            width,
            height,
            frames: frames_view(asset.frames@),
            cape_layers: asset.cape_layers@,
            cape_poses: poses_view(asset.cape_poses@),
        }));
        Ok(asset)
    }
}

/// `i` is the first position in `s` whose entry is named `name`.
pub open spec fn is_first_named<T>(s: Seq<(Seq<char>, T)>, name: Seq<char>, i: int) -> bool {
    &&& 0 <= i < s.len()
    &&& s[i].0 == name
    &&& forall|j: int| 0 <= j < i ==> (#[trigger] s[j]).0 != name
}

/// Some entry of `s` is named `name`.
pub open spec fn has_named<T>(s: Seq<(Seq<char>, T)>, name: Seq<char>) -> bool {
    exists|i: int| 0 <= i < s.len() && (#[trigger] s[i]).0 == name
}

/// `i` is the first position of a layer with `id`.
pub open spec fn is_first_layer(layers: Seq<CapeLayer>, id: CapeLayerId, i: int) -> bool {
    &&& 0 <= i < layers.len()
    &&& layers[i].id == id
    &&& forall|j: int| 0 <= j < i ==> (#[trigger] layers[j]).id != id
}

/// The largest vertex count of `layers`, zero for none.
pub open spec fn max_vertex_count(layers: Seq<CapeLayer>) -> nat
    decreases layers.len(),
{
    if layers.len() == 0 {
        0
    } else {
        let rest = max_vertex_count(layers.drop_last());
        let last = layers.last().vertex_count as nat;
        if rest >= last { rest } else { last }
    }
}

/// The pixel at `(x, y)` of a frame `width` pixels wide; transparent off the frame data.
pub open spec fn spec_pixel_at(pixels: Seq<AssetColor>, width: u16, x: i32, y: i32) -> AssetColor {
    if x < 0 || y < 0 {
        AssetColor::Transparent
    } else {
        let index = y * width + x;
        if index < pixels.len() {
            pixels[index]
        } else {
            AssetColor::Transparent
        }
    }
}

impl KfaAsset {
    pub fn width(&self) -> (r: u16)
        ensures
            r == self@.width,
    {
        self.width
    }

    pub fn height(&self) -> (r: u16)
        ensures
            r == self@.height,
    {
        self.height
    }

    /// The first frame named `name`.
    pub fn frame(&self, name: &str) -> (r: Option<&AssetFrame>)
        ensures
            r is Some <==> has_named(self@.frames, name@),
            r matches Some(f) ==> exists|i: int| is_first_named(self@.frames, name@, i) && f@ == self@.frames[i],
    {
        let wanted = name.to_owned();
        let mut i: usize = 0;
        while i < self.frames.len()
            invariant
                i <= self.frames@.len(),
                wanted@ == name@,
                forall|j: int| 0 <= j < i ==> (#[trigger] frames_view(self.frames@)[j]).0 != name@,
            decreases self.frames@.len() - i,
        {
            if self.frames[i].name == wanted {
                assert(is_first_named(self@.frames, name@, i as int));
                return Some(&self.frames[i]);
            }
            assert(frames_view(self.frames@)[i as int].0 != name@);
            i = i + 1;
        }
        assert forall|j: int| 0 <= j < self@.frames.len() implies (#[trigger] self@.frames[j]).0 != name@ by {
            assert(frames_view(self.frames@)[j].0 != name@);
        }
        None
    }

    pub fn cape_layers(&self) -> (r: &[CapeLayer])
        ensures
            r@ == self@.cape_layers,
    {
        self.cape_layers.as_slice()
    }

    /// Position of the layer with `id`.
    pub fn cape_layer_index(&self, id: CapeLayerId) -> (r: Option<usize>)
        ensures
            r is Some <==> layer_seen(self@.cape_layers, id),
            r matches Some(i) ==> is_first_layer(self@.cape_layers, id, i as int),
    {
        let mut i: usize = 0;
        while i < self.cape_layers.len()
            invariant
                i <= self.cape_layers@.len(),
                forall|j: int| 0 <= j < i ==> (#[trigger] self.cape_layers@[j]).id != id,
            decreases self.cape_layers@.len() - i,
        {
            if self.cape_layers[i].id == id {
                return Some(i);
            }
            i = i + 1;
        }
        None
    }

    /// The first cape pose named `name`.
    pub fn cape_pose(&self, name: &str) -> (r: Option<&CapePose>)
        ensures
            r is Some <==> has_named(self@.cape_poses, name@),
            r matches Some(p) ==> exists|i: int| is_first_named(self@.cape_poses, name@, i) && p@ == self@.cape_poses[i],
    {
        let wanted = name.to_owned();
        let mut i: usize = 0;
        while i < self.cape_poses.len()
            invariant
                i <= self.cape_poses@.len(),
                wanted@ == name@,
                forall|j: int| 0 <= j < i ==> (#[trigger] poses_view(self.cape_poses@)[j]).0 != name@,
            decreases self.cape_poses@.len() - i,
        {
            if self.cape_poses[i].name == wanted {
                assert(is_first_named(self@.cape_poses, name@, i as int));
                return Some(&self.cape_poses[i]);
            }
            assert(poses_view(self.cape_poses@)[i as int].0 != name@);
            i = i + 1;
        }
        assert forall|j: int| 0 <= j < self@.cape_poses.len() implies (#[trigger] self@.cape_poses[j]).0 != name@ by {
            assert(poses_view(self.cape_poses@)[j].0 != name@);
        }
        None
    }

    /// The largest vertex count of any cape layer.
    pub fn max_cape_vertices(&self) -> (r: usize)
        ensures
            r == max_vertex_count(self@.cape_layers),
    {
        let mut best: usize = 0;
        let mut i: usize = 0;
        while i < self.cape_layers.len()
            invariant
                i <= self.cape_layers@.len(),
                best == max_vertex_count(self.cape_layers@.take(i as int)),
            decreases self.cape_layers@.len() - i,
        {
            assert(self.cape_layers@.take(i + 1).drop_last() =~= self.cape_layers@.take(i as int));
            let count = self.cape_layers[i].vertex_count as usize;
            if count > best {
                best = count;
            }
            i = i + 1;
        }
        assert(self.cape_layers@.take(i as int) =~= self.cape_layers@);
        best
    }

    pub fn frames(&self) -> (r: &[AssetFrame])
        ensures
            frames_view(r@) == self@.frames,
    {
        self.frames.as_slice()
    }

    pub fn cape_poses(&self) -> (r: &[CapePose])
        ensures
            poses_view(r@) == self@.cape_poses,
    {
        self.cape_poses.as_slice()
    }
}

impl AssetFrame {
    pub fn name(&self) -> (r: &str)
        ensures
            r@ == self@.0,
    {
        self.name.as_str()
    }

    /// The pixel at `(x, y)` for a frame `width` pixels wide.
    pub fn pixel_at(&self, width: u16, x: i32, y: i32) -> (r: AssetColor)
        ensures
            r == spec_pixel_at(self@.1, width, x, y),
    {
        if x < 0 || y < 0 {
            return AssetColor::Transparent;
        }
        assert((y as int) * (width as int) <= 0x7fff_ffff * 0xffff) by (nonlinear_arith)
            requires
                0 <= y <= 0x7fff_ffff,
                width <= 0xffff,
        ;
        assert((y as int) * (width as int) >= 0) by (nonlinear_arith)
            requires
                0 <= y,
                0 <= width,
        ;
        let index = (y as u64) * (width as u64) + (x as u64);
        if index < self.pixels.len() as u64 {
            self.pixels[index as usize]
        } else {
            AssetColor::Transparent
        }
    }

    pub fn pixels(&self) -> (r: &[AssetColor])
        ensures
            r@ == self@.1,
    {
        self.pixels.as_slice()
    }
}

impl CapePose {
    pub fn name(&self) -> (r: &str)
        ensures
            r@ == self@.0,
    {
        self.name.as_str()
    }

    /// The vertices of the layer at `layer_index`.
    pub fn layer_vertices(&self, layer_index: usize) -> (r: Option<&[FixedPoint]>)
        ensures
            r is Some <==> layer_index < self@.1.len(),
            r matches Some(v) ==> v@ == self@.1[layer_index as int],
    {
        if layer_index < self.layers.len() {
            Some(self.layers[layer_index].vertices.as_slice())
        } else {
            None
        }
    }
}

// ---------------------------------------------------------------------
// The shape of every decoded asset.
// ---------------------------------------------------------------------

/// Cape layer ids are distinct.
pub open spec fn distinct_layer_ids(layers: Seq<CapeLayer>) -> bool {
    forall|i: int, j: int| 0 <= i < j < layers.len() ==> (#[trigger] layers[i]).id != (#[trigger] layers[j]).id
}

/// Every cape layer has at least three vertices.
pub open spec fn layers_are_polygons(layers: Seq<CapeLayer>) -> bool {
    forall|i: int| 0 <= i < layers.len() ==> (#[trigger] layers[i]).vertex_count >= 3
}

/// Every vertex lies on the `width` x `height` canvas.
pub open spec fn vertices_in_bounds(vs: Seq<FixedPoint>, width: u16, height: u16) -> bool {
    forall|i: int| 0 <= i < vs.len() ==> vertex_in_bounds((#[trigger] vs[i]).x as nat, vs[i].y as nat, width, height)
}

/// A pose has one vertex list per cape layer, of that layer's size, on the canvas.
pub open spec fn pose_matches_layers(pose: Seq<Seq<FixedPoint>>, layers: Seq<CapeLayer>, width: u16, height: u16) -> bool {
    &&& pose.len() == layers.len()
    &&& forall|l: int| 0 <= l < pose.len() ==> (#[trigger] pose[l]).len() == layers[l].vertex_count
            && vertices_in_bounds(pose[l], width, height)
}

proof fn lemma_layers_from_shape(b: Seq<u8>, off: int, n: nat, acc: Seq<CapeLayer>)
    requires
        distinct_layer_ids(acc),
        layers_are_polygons(acc),
    ensures
        layers_from(b, off, n, acc) matches Ok((ls, o)) ==> ls.len() == acc.len() + n && distinct_layer_ids(ls)
            && layers_are_polygons(ls),
    decreases n,
{
    if n > 0 && off + 1 <= b.len() {
        let raw = b[off];
        match spec_layer_id(raw) {
            None => {},
            Some(id) => if !layer_seen(acc, id) && off + 2 <= b.len() {
                match spec_color(b[off + 1]) {
                    Err(e) => {},
                    Ok(color) => if off + 4 <= b.len() && le16(b, off + 2) >= 3 {
                        let next = acc.push(CapeLayer { id, color, vertex_count: le16(b, off + 2) as u16 });
                        assert(distinct_layer_ids(next)) by {
                            assert forall|i: int, j: int| 0 <= i < j < next.len() implies
                                (#[trigger] next[i]).id != (#[trigger] next[j]).id by {
                                if j == acc.len() {
                                    assert(acc[i].id != id);
                                }
                            }
                        }
                        lemma_layers_from_shape(b, off + 4, (n - 1) as nat, next);
                    },
                }
            },
        }
    }
}

proof fn lemma_names_from_len(b: Seq<u8>, off: int, n: nat, acc: Seq<Seq<char>>)
    ensures
        names_from(b, off, n, acc) matches Ok((ns, o)) ==> ns.len() == acc.len() + n,
    decreases n,
{
    if n > 0 && off + 1 <= b.len() {
        let start = off + 1;
        let end = start + b[off] as int;
        if end <= b.len() && valid_utf8(b.subrange(start, end)) {
            lemma_names_from_len(b, end, (n - 1) as nat, acc.push(decode_utf8(b.subrange(start, end))));
        }
    }
}

proof fn lemma_rle_from_len(data: Seq<u8>, off: int, acc: Seq<AssetColor>, expected: nat)
    ensures
        rle_from(data, off, acc, expected) matches Ok(px) ==> px.len() == expected,
    decreases data.len() - off,
{
    if off < data.len() {
        match spec_color(data[off]) {
            Err(e) => {},
            Ok(color) => if off + 3 <= data.len() && le16(data, off + 1) != 0
                && acc.len() + le16(data, off + 1) <= expected {
                lemma_rle_from_len(data, off + 3, acc + Seq::new(le16(data, off + 1), |_i: int| color), expected);
            },
        }
    }
}

proof fn lemma_frames_from_shape(
    b: Seq<u8>,
    off: int,
    descs: Seq<(Seq<char>, nat)>,
    k: int,
    expected: nat,
    acc: Seq<FrameView>,
)
    requires
        forall|i: int| 0 <= i < acc.len() ==> (#[trigger] acc[i]).1.len() == expected,
    ensures
        frames_from(b, off, descs, k, expected, acc) matches Ok((fs, o)) ==>
            forall|i: int| 0 <= i < fs.len() ==> (#[trigger] fs[i]).1.len() == expected,
    decreases descs.len() - k,
{
    if k < descs.len() && off + descs[k].1 <= b.len() {
        let data = b.subrange(off, off + descs[k].1);
        lemma_rle_from_len(data, 0, Seq::empty(), expected);
        match spec_decode_rle(data, expected) {
            Err(e) => {},
            Ok(pixels) => {
                let next = acc.push((descs[k].0, pixels));
                assert forall|i: int| 0 <= i < next.len() implies (#[trigger] next[i]).1.len() == expected by {
                    if i < acc.len() {
                        assert(next[i] == acc[i]);
                    }
                }
                lemma_frames_from_shape(b, off + descs[k].1, descs, k + 1, expected, next);
            },
        }
    }
}

proof fn lemma_vertices_from_shape(b: Seq<u8>, off: int, n: nat, width: u16, height: u16, acc: Seq<FixedPoint>)
    requires
        vertices_in_bounds(acc, width, height),
    ensures
        vertices_from(b, off, n, width, height, acc) matches Ok((vs, o)) ==>
            vs.len() == acc.len() + n && vertices_in_bounds(vs, width, height),
    decreases n,
{
    if n > 0 && off + 4 <= b.len() && vertex_in_bounds(le16(b, off), le16(b, off + 2), width, height) {
        let next = acc.push(FixedPoint { x: le16(b, off) as u16, y: le16(b, off + 2) as u16 });
        assert(le16(b, off) < 0x10000 && le16(b, off + 2) < 0x10000);
        assert(vertices_in_bounds(next, width, height)) by {
            assert forall|i: int| 0 <= i < next.len() implies
                vertex_in_bounds((#[trigger] next[i]).x as nat, next[i].y as nat, width, height) by {
                if i < acc.len() {
                    assert(next[i] == acc[i]);
                }
            }
        }
        lemma_vertices_from_shape(b, off + 4, (n - 1) as nat, width, height, next);
    }
}

proof fn lemma_pose_layers_shape(
    b: Seq<u8>,
    off: int,
    layers: Seq<CapeLayer>,
    k: int,
    width: u16,
    height: u16,
    acc: Seq<Seq<FixedPoint>>,
)
    requires
        0 <= k <= layers.len(),
        acc.len() == k,
        forall|l: int| 0 <= l < k ==> (#[trigger] acc[l]).len() == layers[l].vertex_count
            && vertices_in_bounds(acc[l], width, height),
    ensures
        pose_layers_from(b, off, layers, k, width, height, acc) matches Ok((pose, o)) ==>
            pose_matches_layers(pose, layers, width, height),
    decreases layers.len() - k,
{
    if k < layers.len() {
        let r = vertices_from(b, off, layers[k].vertex_count as nat, width, height, Seq::empty());
        lemma_vertices_from_shape(b, off, layers[k].vertex_count as nat, width, height, Seq::empty());
        match r {
            Err(e) => {},
            Ok((vs, o)) => {
                let next = acc.push(vs);
                assert forall|l: int| 0 <= l < k + 1 implies (#[trigger] next[l]).len() == layers[l].vertex_count
                    && vertices_in_bounds(next[l], width, height) by {
                    if l < k {
                        assert(next[l] == acc[l]);
                    }
                }
                lemma_pose_layers_shape(b, o, layers, k + 1, width, height, next);
            },
        }
    } else {
        assert(pose_matches_layers(acc, layers, width, height));
    }
}

proof fn lemma_poses_from_shape(
    b: Seq<u8>,
    off: int,
    names: Seq<Seq<char>>,
    k: int,
    layers: Seq<CapeLayer>,
    width: u16,
    height: u16,
    acc: Seq<PoseView>,
)
    requires
        0 <= k <= names.len(),
        acc.len() == k,
        forall|i: int| 0 <= i < acc.len() ==> pose_matches_layers((#[trigger] acc[i]).1, layers, width, height),
    ensures
        poses_from(b, off, names, k, layers, width, height, acc) matches Ok((ps, o)) ==> {
            &&& ps.len() == names.len()
            &&& forall|i: int| 0 <= i < ps.len() ==> pose_matches_layers((#[trigger] ps[i]).1, layers, width, height)
        },
    decreases names.len() - k,
{
    if k < names.len() {
        lemma_pose_layers_shape(b, off, layers, 0, width, height, Seq::empty());
        match pose_layers_from(b, off, layers, 0, width, height, Seq::empty()) {
            Err(e) => {},
            Ok((pose, o)) => {
                let next = acc.push((names[k], pose));
                assert forall|i: int| 0 <= i < next.len() implies
                    pose_matches_layers((#[trigger] next[i]).1, layers, width, height) by {
                    if i < acc.len() {
                        assert(next[i] == acc[i]);
                    }
                }
                lemma_poses_from_shape(b, o, names, k + 1, layers, width, height, next);
            },
        }
    }
}

/// Every asset that decodes has six cape layers with distinct ids and at
/// least three vertices each; every frame has one pixel per canvas
/// position; there is at least one cape pose, and each pose has, for every
/// layer, exactly that layer's number of vertices, all on the canvas.
pub proof fn lemma_decoded_asset_shape(b: Seq<u8>)
    requires
        spec_parse_kfa(b) is Ok,
    ensures
        ({
            let m = spec_parse_kfa(b)->Ok_0;
            &&& m.cape_layers.len() == REQUIRED_CAPE_LAYER_COUNT
            &&& distinct_layer_ids(m.cape_layers)
            &&& layers_are_polygons(m.cape_layers)
            &&& forall|i: int| 0 <= i < m.frames.len() ==> (#[trigger] m.frames[i]).1.len() == m.width * m.height
            &&& m.cape_poses.len() >= 1
            &&& forall|i: int| 0 <= i < m.cape_poses.len()
                    ==> pose_matches_layers((#[trigger] m.cape_poses[i]).1, m.cape_layers, m.width, m.height)
        }),
{
    let width = le16(b, 4) as u16;
    let height = le16(b, 6) as u16;
    let pose_count = le16(b, 11);
    let rd = descriptors_from(b, HEADER_LEN as int, le16(b, 8), Seq::empty());
    match rd {
        Err(e) => {},
        Ok((descs, o1)) => {
            lemma_layers_from_shape(b, o1, REQUIRED_CAPE_LAYER_COUNT as nat, Seq::empty());
            match layers_from(b, o1, REQUIRED_CAPE_LAYER_COUNT as nat, Seq::empty()) {
                Err(e) => {},
                Ok((layers, o2)) => {
                    lemma_names_from_len(b, o2, pose_count, Seq::empty());
                    match names_from(b, o2, pose_count, Seq::empty()) {
                        Err(e) => {},
                        Ok((names, o3)) => {
                            lemma_frames_from_shape(b, o3, descs, 0, (width * height) as nat, Seq::empty());
                            match frames_from(b, o3, descs, 0, (width * height) as nat, Seq::empty()) {
                                Err(e) => {},
                                Ok((frames, o4)) => {
                                    lemma_poses_from_shape(b, o4, names, 0, layers, width, height, Seq::empty());
                                },
                            }
                        },
                    }
                },
            }
        },
    }
}
} // verus!
