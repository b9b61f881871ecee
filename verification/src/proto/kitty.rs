//! Kitty graphics protocol: control-data parsing, responses and the escape
//! router that separates graphics commands from ordinary terminal output.

use vstd::prelude::*;
use vstd::string::StringSliceAdditionalSpecFns;
use vstd::utf8::encode_utf8;
use crate::text::{decimal, push_decimal, push_str, all_digits, digits_value, find_byte, first_index, is_first_index, parse_digits_u32, split_bytes};

verus! {

pub const MAX_CONTROL_DATA_BYTES: usize = 4096;
pub const MAX_KITTY_CHUNK_BYTES: usize = 4096;

#[derive(Clone, Copy, Debug, PartialEq, Eq, Hash, PartialOrd, Ord)]
pub struct KittyImageKey {
    pub client_id: u32,
}

#[derive(Clone, Copy, Debug, PartialEq, Eq, Hash, PartialOrd, Ord)]
pub struct KittyPlacementKey {
    pub client_image_id: u32,
    pub placement_id: u32,
}

#[derive(Clone, Copy, Debug, PartialEq, Eq)]
pub enum KittyAction {
    TransmitAndDisplay,
    Transmit,
    Place,
    Delete,
}

#[derive(Clone, Copy, Debug, PartialEq, Eq)]
pub enum KittyFormat {
    Png,
    Rgb24 { width: u32, height: u32 },
    Rgba32 { width: u32, height: u32 },
}

#[derive(Clone, Copy, Debug, PartialEq, Eq)]
pub enum KittyTransmission {
    Direct,
}

#[derive(Clone, Copy, Debug, PartialEq, Eq)]
pub enum KittyQuiet {
    Normal,
    SuppressSuccess,
    SuppressAll,
}

#[derive(Clone, Copy, Debug, PartialEq, Eq)]
pub enum KittyParseError {
    MalformedControlData,
    DuplicateKey,
    InvalidValue,
    UnsupportedFeature,
    MissingImageId,
    MissingPayload,
    UnexpectedPayload,
}

/// Value of an unsigned decimal control value.
pub open spec fn spec_parse_u32(value: Seq<u8>) -> Result<u32, KittyParseError> {
    if value.len() > 0 && all_digits(value) && digits_value(value) <= u32::MAX {
        Ok(digits_value(value) as u32)
    } else {
        Err(KittyParseError::InvalidValue)
    }
}

fn parse_u32(value: &[u8]) -> (r: Result<u32, KittyParseError>)
    ensures
        r == spec_parse_u32(value@),
{
    match parse_digits_u32(value) {
        Some(v) => Ok(v),
        None => Err(KittyParseError::InvalidValue),
    }
}

/// Value of a signed decimal control value (an optional `+` or `-` sign
/// followed by digits).
pub open spec fn spec_parse_i32(value: Seq<u8>) -> Result<i32, KittyParseError> {
    if value.len() == 0 {
        Err(KittyParseError::InvalidValue)
    } else {
        let negative = value[0] == 45u8;
        let digits = if value[0] == 45u8 || value[0] == 43u8 {
            value.drop_first()
        } else {
            value
        };
        if digits.len() == 0 || !all_digits(digits) {
            Err(KittyParseError::InvalidValue)
        } else if negative {
            if digits_value(digits) <= 0x8000_0000 {
                Ok((0 - digits_value(digits)) as i32)
            } else {
                Err(KittyParseError::InvalidValue)
            }
        } else if digits_value(digits) <= 0x7fff_ffff {
            Ok(digits_value(digits) as i32)
        } else {
            Err(KittyParseError::InvalidValue)
        }
    }
}

fn parse_i32(value: &[u8]) -> (r: Result<i32, KittyParseError>)
    ensures
        r == spec_parse_i32(value@),
{
    if value.len() == 0 {
        return Err(KittyParseError::InvalidValue);
    }
    let negative = value[0] == 0x2d;
    let digits = if value[0] == 0x2d || value[0] == 0x2b {
        &value[1..value.len()]
    } else {
        value
    };
    assert(value[0] == 45u8 || value[0] == 43u8 ==> digits@ =~= value@.drop_first());
    let magnitude = match parse_u32(digits) {
        Ok(m) => m,
        Err(e) => return Err(e),
    };
    if negative {
        if magnitude == 0x8000_0000u32 {
            Ok(i32::MIN)
        } else if magnitude <= 0x7fff_ffffu32 {
            Ok(-(magnitude as i32))
        } else {
            Err(KittyParseError::InvalidValue)
        }
    } else if magnitude <= 0x7fff_ffffu32 {
        Ok(magnitude as i32)
    } else {
        Err(KittyParseError::InvalidValue)
    }
}

pub open spec fn spec_parse_u16(value: Seq<u8>) -> Result<u16, KittyParseError> {
    match spec_parse_u32(value) {
        Ok(v) => if v <= u16::MAX {
            Ok(v as u16)
        } else {
            Err(KittyParseError::InvalidValue)
        },
        Err(e) => Err(e),
    }
}

fn parse_u16(value: &[u8]) -> (r: Result<u16, KittyParseError>)
    ensures
        r == spec_parse_u16(value@),
{
    match parse_u32(value) {
        Ok(v) => if v <= 0xffff {
            Ok(v as u16)
        } else {
            Err(KittyParseError::InvalidValue)
        },
        Err(e) => Err(e),
    }
}

/// An unsigned value where zero means "unspecified".
pub open spec fn spec_nonzero_u32(value: Seq<u8>) -> Result<Option<u32>, KittyParseError> {
    match spec_parse_u32(value) {
        Ok(v) => Ok(if v == 0 { None } else { Some(v) }),
        Err(e) => Err(e),
    }
}

fn nonzero_u32(value: &[u8]) -> (r: Result<Option<u32>, KittyParseError>)
    ensures
        r == spec_nonzero_u32(value@),
{
    match parse_u32(value) {
        Ok(v) => Ok(if v == 0 { None } else { Some(v) }),
        Err(e) => Err(e),
    }
}

/// A 16-bit value where zero means "unspecified".
pub open spec fn spec_optional_u16(value: Seq<u8>) -> Result<Option<u16>, KittyParseError> {
    match spec_parse_u32(value) {
        Ok(v) => if v == 0 {
            Ok(None)
        } else if v <= u16::MAX {
            Ok(Some(v as u16))
        } else {
            Err(KittyParseError::InvalidValue)
        },
        Err(e) => Err(e),
    }
}

fn optional_u16(value: &[u8]) -> (r: Result<Option<u16>, KittyParseError>)
    ensures
        r == spec_optional_u16(value@),
{
    match parse_u32(value) {
        Ok(v) => if v == 0 {
            Ok(None)
        } else if v <= 0xffff {
            Ok(Some(v as u16))
        } else {
            Err(KittyParseError::InvalidValue)
        },
        Err(e) => Err(e),
    }
}

pub open spec fn spec_single_byte(value: Seq<u8>) -> Result<u8, KittyParseError> {
    if value.len() == 1 {
        Ok(value[0])
    } else {
        Err(KittyParseError::InvalidValue)
    }
}

fn single_byte(value: &[u8]) -> (r: Result<u8, KittyParseError>)
    ensures
        r == spec_single_byte(value@),
{
    if value.len() == 1 {
        Ok(value[0])
    } else {
        Err(KittyParseError::InvalidValue)
    }
}

pub open spec fn spec_required_screen_coordinate(value: Option<u32>) -> Result<u32, KittyParseError> {
    match value {
        Some(v) => if v > 0 {
            Ok(v)
        } else {
            Err(KittyParseError::InvalidValue)
        },
        None => Err(KittyParseError::InvalidValue),
    }
}

fn required_screen_coordinate(value: Option<u32>) -> (r: Result<u32, KittyParseError>)
    ensures
        r == spec_required_screen_coordinate(value),
{
    match value {
        Some(v) => if v > 0 {
            Ok(v)
        } else {
            Err(KittyParseError::InvalidValue)
        },
        None => Err(KittyParseError::InvalidValue),
    }
}


#[derive(Clone, Copy, Debug, PartialEq, Eq)]
pub enum KittyDeleteSelector {
    All { hard: bool },
    Image { hard: bool, image_id: KittyImageKey, placement_id: Option<u32> },
    Cell { hard: bool, column: u32, row: u32 },
    Column { hard: bool, column: u32 },
    Row { hard: bool, row: u32 },
    ZIndex { hard: bool, z_index: i32 },
}

impl KittyDeleteSelector {
    pub open spec fn spec_is_hard(self) -> bool {
        match self {
            KittyDeleteSelector::All { hard } => hard,
            KittyDeleteSelector::Image { hard, .. } => hard,
            KittyDeleteSelector::Cell { hard, .. } => hard,
            KittyDeleteSelector::Column { hard, .. } => hard,
            KittyDeleteSelector::Row { hard, .. } => hard,
            KittyDeleteSelector::ZIndex { hard, .. } => hard,
        }
    }

    /// Whether the selected images are released as well as their placements.
    pub fn is_hard(self) -> (r: bool)
        ensures
            r == self.spec_is_hard(),
    {
        match self {
            KittyDeleteSelector::All { hard } => hard,
            KittyDeleteSelector::Image { hard, .. } => hard,
            KittyDeleteSelector::Cell { hard, .. } => hard,
            KittyDeleteSelector::Column { hard, .. } => hard,
            KittyDeleteSelector::Row { hard, .. } => hard,
            KittyDeleteSelector::ZIndex { hard, .. } => hard,
        }
    }
}

#[derive(Clone, Copy, Debug, PartialEq, Eq)]
pub struct KittyCommand<'a> {
    pub action: KittyAction,
    pub format: KittyFormat,
    pub transmission: KittyTransmission,
    pub image_id: Option<KittyImageKey>,
    pub placement_id: Option<u32>,
    pub columns: Option<u16>,
    pub rows: Option<u16>,
    pub source_x: Option<u32>,
    pub source_y: Option<u32>,
    pub source_width: Option<u32>,
    pub source_height: Option<u32>,
    pub pixel_offset_x: Option<u16>,
    pub pixel_offset_y: Option<u16>,
    pub z_index: i32,
    pub cursor_movement: bool,
    pub quiet: KittyQuiet,
    pub more_chunks: bool,
    pub delete_selector: Option<KittyDeleteSelector>,
    pub payload: &'a [u8],
}

#[derive(Clone, Copy, Debug, PartialEq, Eq)]
pub struct KittyContinuation<'a> {
    pub more_chunks: bool,
    pub quiet: Option<KittyQuiet>,
    pub payload: &'a [u8],
}

#[derive(Clone, Copy, Debug, PartialEq, Eq)]
pub enum ParsedKittyCommand<'a> {
    Command(KittyCommand<'a>),
    Continuation(KittyContinuation<'a>),
}

/// The control keys read so far while parsing one graphics command.
#[derive(Clone, Copy, Debug, PartialEq, Eq)]
pub struct KittyControl {
    pub action: KittyAction,
    pub format: u32,
    pub transmission: u8,
    pub image_id: Option<KittyImageKey>,
    pub placement_id: Option<u32>,
    pub columns: Option<u16>,
    pub rows: Option<u16>,
    pub source_x: Option<u32>,
    pub source_y: Option<u32>,
    pub source_width: Option<u32>,
    pub source_height: Option<u32>,
    pub pixel_offset_x: Option<u16>,
    pub pixel_offset_y: Option<u16>,
    pub source_pixel_width: Option<u32>,
    pub source_pixel_height: Option<u32>,
    pub z_index: i32,
    pub cursor_movement: bool,
    pub quiet: KittyQuiet,
    pub quiet_override: Option<KittyQuiet>,
    pub more_chunks: bool,
    pub raw_delete_selector: u8,
    /// One bit per known key that has already occurred.
    pub seen: u32,
    /// Only `m` and `q` occurred so far.
    pub continuation_control_only: bool,
}

pub open spec fn initial_kitty_control() -> KittyControl {
    KittyControl {
        action: KittyAction::Transmit,
        format: 32,
        transmission: 0x64,
        image_id: None,
        placement_id: None,
        columns: None,
        rows: None,
        source_x: None,
        source_y: None,
        source_width: None,
        source_height: None,
        pixel_offset_x: None,
        pixel_offset_y: None,
        source_pixel_width: None,
        source_pixel_height: None,
        z_index: 0,
        cursor_movement: true,
        quiet: KittyQuiet::Normal,
        quiet_override: None,
        more_chunks: false,
        raw_delete_selector: 0x61,
        seen: 0,
        continuation_control_only: true,
    }
}

fn new_kitty_control() -> (r: KittyControl)
    ensures
        r == initial_kitty_control(),
{
    KittyControl {
        action: KittyAction::Transmit,
        format: 32,
        transmission: 0x64,
        image_id: None,
        placement_id: None,
        columns: None,
        rows: None,
        source_x: None,
        source_y: None,
        source_width: None,
        source_height: None,
        pixel_offset_x: None,
        pixel_offset_y: None,
        source_pixel_width: None,
        source_pixel_height: None,
        z_index: 0,
        cursor_movement: true,
        quiet: KittyQuiet::Normal,
        quiet_override: None,
        more_chunks: false,
        raw_delete_selector: 0x61,
        seen: 0,
        continuation_control_only: true,
    }
}

/// Duplicate-detection bit of each known single-byte key
/// (`a f t i p c r C q m d x y w h X Y z s v`).
pub open spec fn key_bit(key: u8) -> Option<u32> {
    if key == 0x61 { Some(0x1u32) }
    else if key == 0x66 { Some(0x2u32) }
    else if key == 0x74 { Some(0x4u32) }
    else if key == 0x69 { Some(0x8u32) }
    else if key == 0x70 { Some(0x10u32) }
    else if key == 0x63 { Some(0x20u32) }
    else if key == 0x72 { Some(0x40u32) }
    else if key == 0x43 { Some(0x80u32) }
    else if key == 0x71 { Some(0x100u32) }
    else if key == 0x6d { Some(0x200u32) }
    else if key == 0x64 { Some(0x400u32) }
    else if key == 0x78 { Some(0x800u32) }
    else if key == 0x79 { Some(0x1000u32) }
    else if key == 0x77 { Some(0x2000u32) }
    else if key == 0x68 { Some(0x4000u32) }
    else if key == 0x58 { Some(0x8000u32) }
    else if key == 0x59 { Some(0x1_0000u32) }
    else if key == 0x7a { Some(0x2_0000u32) }
    else if key == 0x73 { Some(0x4_0000u32) }
    else if key == 0x76 { Some(0x8_0000u32) }
    else { None }
}

fn key_bit_of(key: u8) -> (r: Option<u32>)
    ensures
        r == key_bit(key),
{
    if key == 0x61 { Some(0x1u32) }
    else if key == 0x66 { Some(0x2u32) }
    else if key == 0x74 { Some(0x4u32) }
    else if key == 0x69 { Some(0x8u32) }
    else if key == 0x70 { Some(0x10u32) }
    else if key == 0x63 { Some(0x20u32) }
    else if key == 0x72 { Some(0x40u32) }
    else if key == 0x43 { Some(0x80u32) }
    else if key == 0x71 { Some(0x100u32) }
    else if key == 0x6d { Some(0x200u32) }
    else if key == 0x64 { Some(0x400u32) }
    else if key == 0x78 { Some(0x800u32) }
    else if key == 0x79 { Some(0x1000u32) }
    else if key == 0x77 { Some(0x2000u32) }
    else if key == 0x68 { Some(0x4000u32) }
    else if key == 0x58 { Some(0x8000u32) }
    else if key == 0x59 { Some(0x1_0000u32) }
    else if key == 0x7a { Some(0x2_0000u32) }
    else if key == 0x73 { Some(0x4_0000u32) }
    else if key == 0x76 { Some(0x8_0000u32) }
    else { None }
}

/// Keys of features this implementation does not support
/// (`S O I o N U P Q H V`).
pub open spec fn is_unsupported_key(key: u8) -> bool {
    key == 0x53 || key == 0x4f || key == 0x49 || key == 0x6f || key == 0x4e || key == 0x55
        || key == 0x50 || key == 0x51 || key == 0x48 || key == 0x56
}

/// The effect of one known single-byte key with its value.
pub open spec fn spec_apply_key(st: KittyControl, key: u8, value: Seq<u8>) -> Result<KittyControl, KittyParseError> {
    if key == 0x61 {
        match spec_single_byte(value) {
            Ok(b) => if b == 0x54 {
                Ok(KittyControl { action: KittyAction::TransmitAndDisplay, ..st })
            } else if b == 0x74 {
                Ok(KittyControl { action: KittyAction::Transmit, ..st })
            } else if b == 0x70 {
                Ok(KittyControl { action: KittyAction::Place, ..st })
            } else if b == 0x64 {
                Ok(KittyControl { action: KittyAction::Delete, ..st })
            } else {
                Err(KittyParseError::UnsupportedFeature)
            },
            Err(e) => Err(e),
        }
    } else if key == 0x66 {
        match spec_parse_u32(value) { Ok(v) => Ok(KittyControl { format: v, ..st }), Err(e) => Err(e) }
    } else if key == 0x74 {
        match spec_single_byte(value) { Ok(v) => Ok(KittyControl { transmission: v, ..st }), Err(e) => Err(e) }
    } else if key == 0x69 {
        match spec_nonzero_u32(value) {
            Ok(v) => Ok(KittyControl {
                image_id: match v { Some(id) => Some(KittyImageKey { client_id: id }), None => None },
                ..st
            }),
            Err(e) => Err(e),
        }
    } else if key == 0x70 {
        match spec_nonzero_u32(value) { Ok(v) => Ok(KittyControl { placement_id: v, ..st }), Err(e) => Err(e) }
    } else if key == 0x63 {
        match spec_optional_u16(value) { Ok(v) => Ok(KittyControl { columns: v, ..st }), Err(e) => Err(e) }
    } else if key == 0x72 {
        match spec_optional_u16(value) { Ok(v) => Ok(KittyControl { rows: v, ..st }), Err(e) => Err(e) }
    } else if key == 0x78 {
        match spec_parse_u32(value) { Ok(v) => Ok(KittyControl { source_x: Some(v), ..st }), Err(e) => Err(e) }
    } else if key == 0x79 {
        match spec_parse_u32(value) { Ok(v) => Ok(KittyControl { source_y: Some(v), ..st }), Err(e) => Err(e) }
    } else if key == 0x77 {
        match spec_parse_u32(value) { Ok(v) => Ok(KittyControl { source_width: Some(v), ..st }), Err(e) => Err(e) }
    } else if key == 0x68 {
        match spec_parse_u32(value) { Ok(v) => Ok(KittyControl { source_height: Some(v), ..st }), Err(e) => Err(e) }
    } else if key == 0x58 {
        match spec_parse_u16(value) { Ok(v) => Ok(KittyControl { pixel_offset_x: Some(v), ..st }), Err(e) => Err(e) }
    } else if key == 0x59 {
        match spec_parse_u16(value) { Ok(v) => Ok(KittyControl { pixel_offset_y: Some(v), ..st }), Err(e) => Err(e) }
    } else if key == 0x7a {
        match spec_parse_i32(value) { Ok(v) => Ok(KittyControl { z_index: v, ..st }), Err(e) => Err(e) }
    } else if key == 0x73 {
        match spec_parse_u32(value) { Ok(v) => Ok(KittyControl { source_pixel_width: Some(v), ..st }), Err(e) => Err(e) }
    } else if key == 0x76 {
        match spec_parse_u32(value) { Ok(v) => Ok(KittyControl { source_pixel_height: Some(v), ..st }), Err(e) => Err(e) }
    } else if key == 0x43 {
        match spec_parse_u32(value) {
            Ok(v) => if v == 0 {
                Ok(KittyControl { cursor_movement: true, ..st })
            } else if v == 1 {
                Ok(KittyControl { cursor_movement: false, ..st })
            } else {
                Err(KittyParseError::InvalidValue)
            },
            Err(e) => Err(e),
        }
    } else if key == 0x71 {
        match spec_parse_u32(value) {
            Ok(v) => if v == 0 {
                Ok(KittyControl { quiet: KittyQuiet::Normal, quiet_override: Some(KittyQuiet::Normal), ..st })
            } else if v == 1 {
                Ok(KittyControl { quiet: KittyQuiet::SuppressSuccess, quiet_override: Some(KittyQuiet::SuppressSuccess), ..st })
            } else if v == 2 {
                Ok(KittyControl { quiet: KittyQuiet::SuppressAll, quiet_override: Some(KittyQuiet::SuppressAll), ..st })
            } else {
                Err(KittyParseError::InvalidValue)
            },
            Err(e) => Err(e),
        }
    } else if key == 0x6d {
        match spec_parse_u32(value) {
            Ok(v) => if v == 0 {
                Ok(KittyControl { more_chunks: false, ..st })
            } else if v == 1 {
                Ok(KittyControl { more_chunks: true, ..st })
            } else {
                Err(KittyParseError::InvalidValue)
            },
            Err(e) => Err(e),
        }
    } else if key == 0x64 {
        match spec_single_byte(value) { Ok(v) => Ok(KittyControl { raw_delete_selector: v, ..st }), Err(e) => Err(e) }
    } else if is_unsupported_key(key) {
        Err(KittyParseError::UnsupportedFeature)
    } else {
        Ok(st)
    }
}

/// The effect of one `key=value` attribute of the control data.
pub open spec fn spec_apply_attribute(st: KittyControl, attr: Seq<u8>) -> Result<KittyControl, KittyParseError> {
    match first_index(attr, 0x3d) {
        None => Err(KittyParseError::MalformedControlData),
        Some(sep) => if sep == 0 || sep + 1 >= attr.len() {
            Err(KittyParseError::MalformedControlData)
        } else {
            let key = attr.take(sep);
            let value = attr.skip(sep + 1);
            let continuation_key = key.len() == 1 && (key[0] == 0x6d || key[0] == 0x71);
            let st1 = if continuation_key { st } else { KittyControl { continuation_control_only: false, ..st } };
            if key.len() == 1 {
                match key_bit(key[0]) {
                    Some(bit) => if st1.seen & bit != 0 {
                        Err(KittyParseError::DuplicateKey)
                    } else {
                        spec_apply_key(KittyControl { seen: st1.seen | bit, ..st1 }, key[0], value)
                    },
                    None => spec_apply_key(st1, key[0], value),
                }
            } else {
                Ok(st1)
            }
        },
    }
}

/// The effect of a list of attributes, applied in order; the first error wins.
pub open spec fn spec_apply_attributes(st: KittyControl, attrs: Seq<Seq<u8>>) -> Result<KittyControl, KittyParseError>
    decreases attrs.len(),
{
    if attrs.len() == 0 {
        Ok(st)
    } else {
        match spec_apply_attribute(st, attrs[0]) {
            Ok(next) => spec_apply_attributes(next, attrs.drop_first()),
            Err(e) => Err(e),
        }
    }
}


fn apply_key(st: KittyControl, key: u8, value: &[u8]) -> (r: Result<KittyControl, KittyParseError>)
    ensures
        r == spec_apply_key(st, key, value@),
{
    if key == 0x61 {
        match single_byte(value) {
            Ok(b) => if b == 0x54 {
                Ok(KittyControl { action: KittyAction::TransmitAndDisplay, ..st })
            } else if b == 0x74 {
                Ok(KittyControl { action: KittyAction::Transmit, ..st })
            } else if b == 0x70 {
                Ok(KittyControl { action: KittyAction::Place, ..st })
            } else if b == 0x64 {
                Ok(KittyControl { action: KittyAction::Delete, ..st })
            } else {
                Err(KittyParseError::UnsupportedFeature)
            },
            Err(e) => Err(e),
        }
    } else if key == 0x66 {
        match parse_u32(value) { Ok(v) => Ok(KittyControl { format: v, ..st }), Err(e) => Err(e) }
    } else if key == 0x74 {
        match single_byte(value) { Ok(v) => Ok(KittyControl { transmission: v, ..st }), Err(e) => Err(e) }
    } else if key == 0x69 {
        match nonzero_u32(value) {
            Ok(v) => Ok(KittyControl {
                image_id: match v { Some(id) => Some(KittyImageKey { client_id: id }), None => None },
                ..st
            }),
            Err(e) => Err(e),
        }
    } else if key == 0x70 {
        match nonzero_u32(value) { Ok(v) => Ok(KittyControl { placement_id: v, ..st }), Err(e) => Err(e) }
    } else if key == 0x63 {
        match optional_u16(value) { Ok(v) => Ok(KittyControl { columns: v, ..st }), Err(e) => Err(e) }
    } else if key == 0x72 {
        match optional_u16(value) { Ok(v) => Ok(KittyControl { rows: v, ..st }), Err(e) => Err(e) }
    } else if key == 0x78 {
        match parse_u32(value) { Ok(v) => Ok(KittyControl { source_x: Some(v), ..st }), Err(e) => Err(e) }
    } else if key == 0x79 {
        match parse_u32(value) { Ok(v) => Ok(KittyControl { source_y: Some(v), ..st }), Err(e) => Err(e) }
    } else if key == 0x77 {
        match parse_u32(value) { Ok(v) => Ok(KittyControl { source_width: Some(v), ..st }), Err(e) => Err(e) }
    } else if key == 0x68 {
        match parse_u32(value) { Ok(v) => Ok(KittyControl { source_height: Some(v), ..st }), Err(e) => Err(e) }
    } else if key == 0x58 {
        match parse_u16(value) { Ok(v) => Ok(KittyControl { pixel_offset_x: Some(v), ..st }), Err(e) => Err(e) }
    } else if key == 0x59 {
        match parse_u16(value) { Ok(v) => Ok(KittyControl { pixel_offset_y: Some(v), ..st }), Err(e) => Err(e) }
    } else if key == 0x7a {
        match parse_i32(value) { Ok(v) => Ok(KittyControl { z_index: v, ..st }), Err(e) => Err(e) }
    } else if key == 0x73 {
        match parse_u32(value) { Ok(v) => Ok(KittyControl { source_pixel_width: Some(v), ..st }), Err(e) => Err(e) }
    } else if key == 0x76 {
        match parse_u32(value) { Ok(v) => Ok(KittyControl { source_pixel_height: Some(v), ..st }), Err(e) => Err(e) }
    } else if key == 0x43 {
        match parse_u32(value) {
            Ok(v) => if v == 0 {
                Ok(KittyControl { cursor_movement: true, ..st })
            } else if v == 1 {
                Ok(KittyControl { cursor_movement: false, ..st })
            } else {
                Err(KittyParseError::InvalidValue)
            },
            Err(e) => Err(e),
        }
    } else if key == 0x71 {
        match parse_u32(value) {
            Ok(v) => if v == 0 {
                Ok(KittyControl { quiet: KittyQuiet::Normal, quiet_override: Some(KittyQuiet::Normal), ..st })
            } else if v == 1 {
                Ok(KittyControl { quiet: KittyQuiet::SuppressSuccess, quiet_override: Some(KittyQuiet::SuppressSuccess), ..st })
            } else if v == 2 {
                Ok(KittyControl { quiet: KittyQuiet::SuppressAll, quiet_override: Some(KittyQuiet::SuppressAll), ..st })
            } else {
                Err(KittyParseError::InvalidValue)
            },
            Err(e) => Err(e),
        }
    } else if key == 0x6d {
        match parse_u32(value) {
            Ok(v) => if v == 0 {
                Ok(KittyControl { more_chunks: false, ..st })
            } else if v == 1 {
                Ok(KittyControl { more_chunks: true, ..st })
            } else {
                Err(KittyParseError::InvalidValue)
            },
            Err(e) => Err(e),
        }
    } else if key == 0x64 {
        match single_byte(value) { Ok(v) => Ok(KittyControl { raw_delete_selector: v, ..st }), Err(e) => Err(e) }
    } else if key == 0x53 || key == 0x4f || key == 0x49 || key == 0x6f || key == 0x4e || key == 0x55
        || key == 0x50 || key == 0x51 || key == 0x48 || key == 0x56 {
        Err(KittyParseError::UnsupportedFeature)
    } else {
        Ok(st)
    }
}

fn apply_attribute(st: KittyControl, attr: &[u8]) -> (r: Result<KittyControl, KittyParseError>)
    ensures
        r == spec_apply_attribute(st, attr@),
{
    let sep = match find_byte(attr, 0x3d) {
        None => return Err(KittyParseError::MalformedControlData),
        Some(sep) => sep,
    };
    let len = attr.len();
    if sep == 0 || sep >= len - 1 {
        return Err(KittyParseError::MalformedControlData);
    }
    let key = &attr[0..sep];
    let value = &attr[sep + 1..attr.len()];
    assert(key@ =~= attr@.take(sep as int));
    assert(value@ =~= attr@.skip(sep + 1));
    let continuation_key = key.len() == 1 && (key[0] == 0x6d || key[0] == 0x71);
    let st1 = if continuation_key { st } else { KittyControl { continuation_control_only: false, ..st } };
    if key.len() == 1 {
        match key_bit_of(key[0]) {
            Some(bit) => if st1.seen & bit != 0 {
                Err(KittyParseError::DuplicateKey)
            } else {
                apply_key(KittyControl { seen: st1.seen | bit, ..st1 }, key[0], value)
            },
            None => apply_key(st1, key[0], value),
        }
    } else {
        Ok(st1)
    }
}


/// Pixel format of a transmitted image.
pub open spec fn spec_transmit_format(st: KittyControl) -> Result<KittyFormat, KittyParseError> {
    if st.format == 100 {
        Ok(KittyFormat::Png)
    } else if st.format == 24 || st.format == 32 {
        match st.source_pixel_width {
            Some(width) if width > 0 => match st.source_pixel_height {
                Some(height) if height > 0 => if st.format == 24 {
                    Ok(KittyFormat::Rgb24 { width, height })
                } else {
                    Ok(KittyFormat::Rgba32 { width, height })
                },
                _ => Err(KittyParseError::InvalidValue),
            },
            _ => Err(KittyParseError::InvalidValue),
        }
    } else {
        Err(KittyParseError::UnsupportedFeature)
    }
}

fn transmit_format(st: KittyControl) -> (r: Result<KittyFormat, KittyParseError>)
    ensures
        r == spec_transmit_format(st),
{
    if st.format == 100 {
        Ok(KittyFormat::Png)
    } else if st.format == 24 || st.format == 32 {
        match st.source_pixel_width {
            Some(width) if width > 0 => match st.source_pixel_height {
                Some(height) if height > 0 => if st.format == 24 {
                    Ok(KittyFormat::Rgb24 { width, height })
                } else {
                    Ok(KittyFormat::Rgba32 { width, height })
                },
                _ => Err(KittyParseError::InvalidValue),
            },
            _ => Err(KittyParseError::InvalidValue),
        }
    } else {
        Err(KittyParseError::UnsupportedFeature)
    }
}

/// ASCII upper-case letter.
pub open spec fn is_ascii_upper(b: u8) -> bool {
    0x41 <= b <= 0x5a
}

/// Which placements an `a=d` command deletes; upper-case selectors also
/// release the images.
pub open spec fn spec_delete_selector(st: KittyControl) -> Result<KittyDeleteSelector, KittyParseError> {
    let raw = st.raw_delete_selector;
    let hard = is_ascii_upper(raw);
    let lower = if hard { (raw + 32) as u8 } else { raw };
    if lower == 0x61 {
        Ok(KittyDeleteSelector::All { hard })
    } else if lower == 0x69 {
        match st.image_id {
            Some(image_id) => Ok(KittyDeleteSelector::Image { hard, image_id, placement_id: st.placement_id }),
            None => Err(KittyParseError::MissingImageId),
        }
    } else if lower == 0x70 {
        match spec_required_screen_coordinate(st.source_x) {
            Ok(column) => match spec_required_screen_coordinate(st.source_y) {
                Ok(row) => Ok(KittyDeleteSelector::Cell { hard, column, row }),
                Err(e) => Err(e),
            },
            Err(e) => Err(e),
        }
    } else if lower == 0x78 {
        match spec_required_screen_coordinate(st.source_x) {
            Ok(column) => Ok(KittyDeleteSelector::Column { hard, column }),
            Err(e) => Err(e),
        }
    } else if lower == 0x79 {
        match spec_required_screen_coordinate(st.source_y) {
            Ok(row) => Ok(KittyDeleteSelector::Row { hard, row }),
            Err(e) => Err(e),
        }
    } else if lower == 0x7a {
        if st.seen & 0x2_0000u32 == 0 {
            Err(KittyParseError::InvalidValue)
        } else {
            Ok(KittyDeleteSelector::ZIndex { hard, z_index: st.z_index })
        }
    } else {
        Err(KittyParseError::UnsupportedFeature)
    }
}

fn delete_selector(st: KittyControl) -> (r: Result<KittyDeleteSelector, KittyParseError>)
    ensures
        r == spec_delete_selector(st),
{
    let raw = st.raw_delete_selector;
    let hard = 0x41 <= raw && raw <= 0x5a;
    let lower = if hard { raw + 32 } else { raw };
    if lower == 0x61 {
        Ok(KittyDeleteSelector::All { hard })
    } else if lower == 0x69 {
        match st.image_id {
            Some(image_id) => Ok(KittyDeleteSelector::Image { hard, image_id, placement_id: st.placement_id }),
            None => Err(KittyParseError::MissingImageId),
        }
    } else if lower == 0x70 {
        match required_screen_coordinate(st.source_x) {
            Ok(column) => match required_screen_coordinate(st.source_y) {
                Ok(row) => Ok(KittyDeleteSelector::Cell { hard, column, row }),
                Err(e) => Err(e),
            },
            Err(e) => Err(e),
        }
    } else if lower == 0x78 {
        match required_screen_coordinate(st.source_x) {
            Ok(column) => Ok(KittyDeleteSelector::Column { hard, column }),
            Err(e) => Err(e),
        }
    } else if lower == 0x79 {
        match required_screen_coordinate(st.source_y) {
            Ok(row) => Ok(KittyDeleteSelector::Row { hard, row }),
            Err(e) => Err(e),
        }
    } else if lower == 0x7a {
        if st.seen & 0x2_0000u32 == 0 {
            Err(KittyParseError::InvalidValue)
        } else {
            Ok(KittyDeleteSelector::ZIndex { hard, z_index: st.z_index })
        }
    } else {
        Err(KittyParseError::UnsupportedFeature)
    }
}

/// The complete command described by the parsed control data.
pub open spec fn command_from_control<'a>(
    st: KittyControl,
    format: KittyFormat,
    delete_selector: Option<KittyDeleteSelector>,
    payload: &'a [u8],
) -> KittyCommand<'a> {
    KittyCommand {
        action: st.action,
        format,
        transmission: KittyTransmission::Direct,
        image_id: st.image_id,
        placement_id: st.placement_id,
        columns: st.columns,
        rows: st.rows,
        source_x: st.source_x,
        source_y: st.source_y,
        source_width: st.source_width,
        source_height: st.source_height,
        pixel_offset_x: st.pixel_offset_x,
        pixel_offset_y: st.pixel_offset_y,
        z_index: st.z_index,
        cursor_movement: st.cursor_movement,
        quiet: st.quiet,
        more_chunks: st.more_chunks,
        delete_selector,
        payload,
    }
}

fn make_command<'a>(
    st: KittyControl,
    format: KittyFormat,
    delete_selector: Option<KittyDeleteSelector>,
    payload: &'a [u8],
) -> (r: KittyCommand<'a>)
    ensures
        r == command_from_control(st, format, delete_selector, payload),
{
    KittyCommand {
        action: st.action,
        format,
        transmission: KittyTransmission::Direct,
        image_id: st.image_id,
        placement_id: st.placement_id,
        columns: st.columns,
        rows: st.rows,
        source_x: st.source_x,
        source_y: st.source_y,
        source_width: st.source_width,
        source_height: st.source_height,
        pixel_offset_x: st.pixel_offset_x,
        pixel_offset_y: st.pixel_offset_y,
        z_index: st.z_index,
        cursor_movement: st.cursor_movement,
        quiet: st.quiet,
        more_chunks: st.more_chunks,
        delete_selector,
        payload,
    }
}

/// Validation of the parsed control data against the action and payload.
pub open spec fn spec_finish_command<'a>(
    st: KittyControl,
    payload: &'a [u8],
    has_separator: bool,
) -> Result<ParsedKittyCommand<'a>, KittyParseError> {
    let has_more_key = st.seen & 0x200u32 != 0;
    if has_more_key && st.continuation_control_only {
        if !has_separator {
            Err(KittyParseError::MalformedControlData)
        } else {
            Ok(ParsedKittyCommand::Continuation(KittyContinuation {
                more_chunks: st.more_chunks,
                quiet: st.quiet_override,
                payload,
            }))
        }
    } else if st.transmission != 0x64 {
        Err(KittyParseError::UnsupportedFeature)
    } else {
        match st.action {
            KittyAction::Transmit | KittyAction::TransmitAndDisplay => match spec_transmit_format(st) {
                Ok(format) => if st.more_chunks && st.image_id is None {
                    Err(KittyParseError::MissingImageId)
                } else if !has_separator || (!st.more_chunks && payload@.len() == 0) {
                    Err(KittyParseError::MissingPayload)
                } else {
                    Ok(ParsedKittyCommand::Command(command_from_control(st, format, None, payload)))
                },
                Err(e) => Err(e),
            },
            KittyAction::Place => if st.more_chunks {
                Err(KittyParseError::UnsupportedFeature)
            } else if st.image_id is None {
                Err(KittyParseError::MissingImageId)
            } else if payload@.len() != 0 {
                Err(KittyParseError::UnexpectedPayload)
            } else {
                Ok(ParsedKittyCommand::Command(command_from_control(st, KittyFormat::Png, None, payload)))
            },
            KittyAction::Delete => if has_more_key {
                Err(KittyParseError::UnsupportedFeature)
            } else if payload@.len() != 0 {
                Err(KittyParseError::UnexpectedPayload)
            } else {
                match spec_delete_selector(st) {
                    Ok(selector) => Ok(ParsedKittyCommand::Command(
                        command_from_control(st, KittyFormat::Png, Some(selector), payload),
                    )),
                    Err(e) => Err(e),
                }
            },
        }
    }
}

fn finish_command<'a>(
    st: KittyControl,
    payload: &'a [u8],
    has_separator: bool,
) -> (r: Result<ParsedKittyCommand<'a>, KittyParseError>)
    ensures
        r == spec_finish_command(st, payload, has_separator),
{
    let has_more_key = st.seen & 0x200u32 != 0;
    if has_more_key && st.continuation_control_only {
        if !has_separator {
            return Err(KittyParseError::MalformedControlData);
        }
        return Ok(ParsedKittyCommand::Continuation(KittyContinuation {
            more_chunks: st.more_chunks,
            quiet: st.quiet_override,
            payload,
        }));
    }
    if st.transmission != 0x64 {
        return Err(KittyParseError::UnsupportedFeature);
    }
    match st.action {
        KittyAction::Transmit | KittyAction::TransmitAndDisplay => match transmit_format(st) {
            Ok(format) => if st.more_chunks && st.image_id.is_none() {
                Err(KittyParseError::MissingImageId)
            } else if !has_separator || (!st.more_chunks && payload.len() == 0) {
                Err(KittyParseError::MissingPayload)
            } else {
                Ok(ParsedKittyCommand::Command(make_command(st, format, None, payload)))
            },
            Err(e) => Err(e),
        },
        KittyAction::Place => if st.more_chunks {
            Err(KittyParseError::UnsupportedFeature)
        } else if st.image_id.is_none() {
            Err(KittyParseError::MissingImageId)
        } else if payload.len() != 0 {
            Err(KittyParseError::UnexpectedPayload)
        } else {
            Ok(ParsedKittyCommand::Command(make_command(st, KittyFormat::Png, None, payload)))
        },
        KittyAction::Delete => if has_more_key {
            Err(KittyParseError::UnsupportedFeature)
        } else if payload.len() != 0 {
            Err(KittyParseError::UnexpectedPayload)
        } else {
            match delete_selector(st) {
                Ok(selector) => Ok(ParsedKittyCommand::Command(
                    make_command(st, KittyFormat::Png, Some(selector), payload),
                )),
                Err(e) => Err(e),
            }
        },
    }
}

/// Control data of a graphics command body: everything before the first `;`.
pub open spec fn kitty_control(input: Seq<u8>) -> Seq<u8> {
    match first_index(input, 0x3b) {
        Some(i) => input.take(i),
        None => input,
    }
}

/// Payload of a graphics command body: everything after the first `;`.
pub open spec fn kitty_payload(input: Seq<u8>) -> Seq<u8> {
    match first_index(input, 0x3b) {
        Some(i) => input.skip(i + 1),
        None => Seq::empty(),
    }
}

pub open spec fn kitty_has_separator(input: Seq<u8>) -> bool {
    first_index(input, 0x3b) is Some
}

/// The result of parsing a graphics command body whose payload is the
/// slice `payload`.
pub open spec fn spec_parse_kitty_command<'a>(
    input: Seq<u8>,
    payload: &'a [u8],
) -> Result<ParsedKittyCommand<'a>, KittyParseError> {
    let control = kitty_control(input);
    if control.len() > MAX_CONTROL_DATA_BYTES {
        Err(KittyParseError::UnsupportedFeature)
    } else {
        let parsed = if control.len() == 0 {
            Ok(initial_kitty_control())
        } else {
            spec_apply_attributes(initial_kitty_control(), split_bytes(control, 0x2c))
        };
        match parsed {
            Ok(st) => spec_finish_command(st, payload, kitty_has_separator(input)),
            Err(e) => Err(e),
        }
    }
}

fn read_control(control: &[u8]) -> (r: Result<KittyControl, KittyParseError>)
    requires
        control@.len() > 0,
    ensures
        r == spec_apply_attributes(initial_kitty_control(), split_bytes(control@, 0x2c)),
{
    let mut st = new_kitty_control();
    let mut start: usize = 0;
    assert(control@.skip(0) =~= control@);
    loop
        invariant
            start <= control@.len(),
            spec_apply_attributes(initial_kitty_control(), split_bytes(control@, 0x2c))
                == spec_apply_attributes(st, split_bytes(control@.skip(start as int), 0x2c)),
        decreases control@.len() - start,
    {
        let rest = &control[start..control.len()];
        assert(rest@ =~= control@.skip(start as int));
        match find_byte(rest, 0x2c) {
            Some(i) => {
                let attr = &rest[0..i];
                assert(attr@ =~= rest@.take(i as int));
                assert(rest@.skip(i + 1) =~= control@.skip(start + i + 1));
                let ghost pieces = split_bytes(rest@, 0x2c);
                assert(pieces[0] == attr@);
                assert(pieces.drop_first() =~= split_bytes(rest@.skip(i + 1), 0x2c));
                match apply_attribute(st, attr) {
                    Ok(next) => {
                        st = next;
                    },
                    Err(e) => {
                        return Err(e);
                    },
                }
                start = start + i + 1;
            },
            None => {
                let ghost pieces = split_bytes(rest@, 0x2c);
                assert(!exists|j: int| is_first_index(rest@, 0x2c, j));
                assert(pieces =~= seq![rest@]);
                assert(pieces.drop_first() =~= Seq::<Seq<u8>>::empty());
                let r = apply_attribute(st, rest);
                assert(spec_apply_attributes(st, pieces) == r) by {
                    match r {
                        Ok(n) => {
                            assert(spec_apply_attributes(n, pieces.drop_first()) == Ok::<KittyControl, KittyParseError>(n));
                        },
                        Err(_) => {},
                    }
                }
                return r;
            },
        }
    }
}

/// Parse one Kitty graphics APC body after the leading `G` and before ST.
pub fn parse_kitty_command(input: &[u8]) -> (r: Result<ParsedKittyCommand<'_>, KittyParseError>)
    ensures
        forall|p: &[u8]| p@ == kitty_payload(input@) ==> r == #[trigger] spec_parse_kitty_command(input@, p),
{
    let len = input.len();
    let (control, payload, has_separator) = match find_byte(input, 0x3b) {
        Some(index) => (&input[0..index], &input[index + 1..input.len()], true),
        None => (input, &input[input.len()..input.len()], false),
    };
    assert(control@ =~= kitty_control(input@));
    assert(payload@ =~= kitty_payload(input@));
    let r = if control.len() > MAX_CONTROL_DATA_BYTES {
        Err(KittyParseError::UnsupportedFeature)
    } else {
        let parsed = if control.len() == 0 {
            Ok(new_kitty_control())
        } else {
            read_control(control)
        };
        match parsed {
            Ok(st) => finish_command(st, payload, has_separator),
            Err(e) => Err(e),
        }
    };
    assert forall|p: &[u8]| p@ == kitty_payload(input@) implies r == spec_parse_kitty_command(input@, p) by {
        assert(p =~= payload);
    }
    r
}


#[derive(Clone, Copy, Debug, PartialEq, Eq)]
pub struct KittyResponseContext {
    pub image_id: Option<u32>,
    pub placement_id: Option<u32>,
    pub quiet: KittyQuiet,
}

impl Default for KittyResponseContext {
    fn default() -> (r: Self)
        ensures
            r == (KittyResponseContext { image_id: None, placement_id: None, quiet: KittyQuiet::Normal }),
    {
        KittyResponseContext { image_id: None, placement_id: None, quiet: KittyQuiet::Normal }
    }
}

#[derive(Clone, Copy, Debug, PartialEq, Eq)]
pub enum KittyErrorCode {
    Invalid,
    NoEntry,
    NoData,
    BadPng,
    TooBig,
    NoSpace,
}

/// Name of an error code as it appears in a response.
pub open spec fn error_code_name(code: KittyErrorCode) -> Seq<char> {
    match code {
        KittyErrorCode::Invalid => seq!['E', 'I', 'N', 'V', 'A', 'L'],
        KittyErrorCode::NoEntry => seq!['E', 'N', 'O', 'E', 'N', 'T'],
        KittyErrorCode::NoData => seq!['E', 'N', 'O', 'D', 'A', 'T', 'A'],
        KittyErrorCode::BadPng => seq!['E', 'B', 'A', 'D', 'P', 'N', 'G'],
        KittyErrorCode::TooBig => seq!['E', '2', 'B', 'I', 'G'],
        KittyErrorCode::NoSpace => seq!['E', 'N', 'O', 'S', 'P', 'C'],
    }
}

impl KittyErrorCode {
    pub fn as_str(self) -> (r: &'static str)
        ensures
            r@ == error_code_name(self),
    {
        match self {
            KittyErrorCode::Invalid => {
                proof { reveal_strlit("EINVAL"); }
                "EINVAL"
            },
            KittyErrorCode::NoEntry => {
                proof { reveal_strlit("ENOENT"); }
                "ENOENT"
            },
            KittyErrorCode::NoData => {
                proof { reveal_strlit("ENODATA"); }
                "ENODATA"
            },
            KittyErrorCode::BadPng => {
                proof { reveal_strlit("EBADPNG"); }
                "EBADPNG"
            },
            KittyErrorCode::TooBig => {
                proof { reveal_strlit("E2BIG"); }
                "E2BIG"
            },
            KittyErrorCode::NoSpace => {
                proof { reveal_strlit("ENOSPC"); }
                "ENOSPC"
            },
        }
    }
}

#[derive(Clone, Copy, Debug, PartialEq, Eq)]
pub struct KittyProtocolError {
    pub code: KittyErrorCode,
    pub message: &'static str,
}

impl KittyProtocolError {
    pub fn new(code: KittyErrorCode, message: &'static str) -> (r: Self)
        ensures
            r.code == code,
            r.message == message,
    {
        KittyProtocolError { code, message }
    }
}

impl KittyParseError {
    /// Error code of the response that reports this parse error.
    pub open spec fn spec_response_code(self) -> KittyErrorCode {
        match self {
            KittyParseError::MissingPayload => KittyErrorCode::NoData,
            _ => KittyErrorCode::Invalid,
        }
    }

    /// The protocol error reported to the client for this parse error.
    pub fn protocol_error(self) -> (r: KittyProtocolError)
        ensures
            r.code == self.spec_response_code(),
            self == KittyParseError::MissingPayload ==> r.message@ == "image payload is empty"@,
            self == KittyParseError::MalformedControlData ==> r.message@ == "malformed control data"@,
            self == KittyParseError::DuplicateKey ==> r.message@ == "duplicate control key"@,
            self == KittyParseError::InvalidValue ==> r.message@ == "invalid control value"@,
            self == KittyParseError::UnsupportedFeature ==> r.message@ == "unsupported graphics feature"@,
            self == KittyParseError::MissingImageId ==> r.message@ == "image id is required"@,
            self == KittyParseError::UnexpectedPayload ==> r.message@ == "payload is not allowed for this action"@,
    {
        match self {
            KittyParseError::MissingPayload => KittyProtocolError::new(KittyErrorCode::NoData, "image payload is empty"),
            KittyParseError::MalformedControlData => KittyProtocolError::new(KittyErrorCode::Invalid, "malformed control data"),
            KittyParseError::DuplicateKey => KittyProtocolError::new(KittyErrorCode::Invalid, "duplicate control key"),
            KittyParseError::InvalidValue => KittyProtocolError::new(KittyErrorCode::Invalid, "invalid control value"),
            KittyParseError::UnsupportedFeature => KittyProtocolError::new(KittyErrorCode::Invalid, "unsupported graphics feature"),
            KittyParseError::MissingImageId => KittyProtocolError::new(KittyErrorCode::Invalid, "image id is required"),
            KittyParseError::UnexpectedPayload => KittyProtocolError::new(
                KittyErrorCode::Invalid,
                "payload is not allowed for this action",
            ),
        }
    }
}

/// The effect of one control attribute on the response context; attributes
/// that do not parse are skipped.
pub open spec fn spec_context_attribute(ctx: KittyResponseContext, attr: Seq<u8>) -> KittyResponseContext {
    match first_index(attr, 0x3d) {
        None => ctx,
        Some(sep) => {
            let key = attr.take(sep);
            let value = attr.skip(sep + 1);
            if key =~= seq![0x69u8] {
                KittyResponseContext {
                    image_id: match spec_nonzero_u32(value) { Ok(v) => v, Err(_) => None },
                    ..ctx
                }
            } else if key =~= seq![0x70u8] {
                KittyResponseContext {
                    placement_id: match spec_nonzero_u32(value) { Ok(v) => v, Err(_) => None },
                    ..ctx
                }
            } else if key =~= seq![0x71u8] {
                KittyResponseContext {
                    quiet: match spec_parse_u32(value) {
                        Ok(v) => if v == 1 {
                            KittyQuiet::SuppressSuccess
                        } else if v == 2 {
                            KittyQuiet::SuppressAll
                        } else {
                            KittyQuiet::Normal
                        },
                        Err(_) => KittyQuiet::Normal,
                    },
                    ..ctx
                }
            } else {
                ctx
            }
        },
    }
}

pub open spec fn spec_context_attributes(ctx: KittyResponseContext, attrs: Seq<Seq<u8>>) -> KittyResponseContext
    decreases attrs.len(),
{
    if attrs.len() == 0 {
        ctx
    } else {
        spec_context_attributes(spec_context_attribute(ctx, attrs[0]), attrs.drop_first())
    }
}

/// The response context recovered from a command body, even one whose
/// control data is invalid.
pub open spec fn spec_response_context(input: Seq<u8>) -> KittyResponseContext {
    spec_context_attributes(
        KittyResponseContext { image_id: None, placement_id: None, quiet: KittyQuiet::Normal },
        split_bytes(kitty_control(input), 0x2c),
    )
}

fn context_attribute(ctx: KittyResponseContext, attr: &[u8]) -> (r: KittyResponseContext)
    ensures
        r == spec_context_attribute(ctx, attr@),
{
    let sep = match find_byte(attr, 0x3d) {
        None => return ctx,
        Some(sep) => sep,
    };
    let len = attr.len();
    let key = &attr[0..sep];
    let value = &attr[sep + 1..len];
    assert(key@ =~= attr@.take(sep as int));
    assert(value@ =~= attr@.skip(sep + 1));
    if key.len() == 1 && key[0] == 0x69 {
        assert(key@ =~= seq![0x69u8]);
        KittyResponseContext {
            image_id: match nonzero_u32(value) { Ok(v) => v, Err(_) => None },
            ..ctx
        }
    } else if key.len() == 1 && key[0] == 0x70 {
        assert(key@ =~= seq![0x70u8]);
        KittyResponseContext {
            placement_id: match nonzero_u32(value) { Ok(v) => v, Err(_) => None },
            ..ctx
        }
    } else if key.len() == 1 && key[0] == 0x71 {
        assert(key@ =~= seq![0x71u8]);
        KittyResponseContext {
            quiet: match parse_u32(value) {
                Ok(v) => if v == 1 {
                    KittyQuiet::SuppressSuccess
                } else if v == 2 {
                    KittyQuiet::SuppressAll
                } else {
                    KittyQuiet::Normal
                },
                Err(_) => KittyQuiet::Normal,
            },
            ..ctx
        }
    } else {
        assert(!(key@ =~= seq![0x69u8]) && !(key@ =~= seq![0x70u8]) && !(key@ =~= seq![0x71u8])) by {
            if key@.len() == 1 {
                assert(key@[0] == key[0]);
            }
        }
        ctx
    }
}

/// Image id, placement id and quiet policy that a response to this command
/// body must use.
pub fn response_context(input: &[u8]) -> (r: KittyResponseContext)
    ensures
        r == spec_response_context(input@),
{
    let control = match find_byte(input, 0x3b) {
        Some(index) => &input[0..index],
        None => input,
    };
    assert(control@ =~= kitty_control(input@));
    let mut ctx = KittyResponseContext { image_id: None, placement_id: None, quiet: KittyQuiet::Normal };
    let mut start: usize = 0;
    assert(control@.skip(0) =~= control@);
    loop
        invariant
            start <= control@.len(),
            spec_response_context(input@)
                == spec_context_attributes(ctx, split_bytes(control@.skip(start as int), 0x2c)),
            control@ == kitty_control(input@),
        decreases control@.len() - start,
    {
        let rest = &control[start..control.len()];
        assert(rest@ =~= control@.skip(start as int));
        match find_byte(rest, 0x2c) {
            Some(i) => {
                let attr = &rest[0..i];
                assert(attr@ =~= rest@.take(i as int));
                assert(rest@.skip(i + 1) =~= control@.skip(start + i + 1));
                let ghost pieces = split_bytes(rest@, 0x2c);
                assert(pieces[0] == attr@);
                assert(pieces.drop_first() =~= split_bytes(rest@.skip(i + 1), 0x2c));
                ctx = context_attribute(ctx, attr);
                start = start + i + 1;
            },
            None => {
                let ghost pieces = split_bytes(rest@, 0x2c);
                assert(!exists|j: int| is_first_index(rest@, 0x2c, j));
                assert(pieces =~= seq![rest@]);
                let r = context_attribute(ctx, rest);
                assert(spec_context_attributes(r, pieces.drop_first()) == r) by {
                    assert(pieces.drop_first() =~= Seq::<Seq<u8>>::empty());
                }
                return r;
            },
        }
    }
}

/// Body of a response after the ids: `OK`, or the error code followed by
/// `:` and the message when there is one.
pub open spec fn response_body(result: Result<(), KittyProtocolError>) -> Seq<u8> {
    match result {
        Ok(()) => seq![0x4fu8, 0x4bu8],
        Err(error) => if error.message@.len() == 0 {
            encode_utf8(error_code_name(error.code))
        } else {
            encode_utf8(error_code_name(error.code)) + seq![0x3au8] + error.message.spec_bytes()
        },
    }
}

/// Whether the quiet policy suppresses the response to `result`.
pub open spec fn response_suppressed(quiet: KittyQuiet, result: Result<(), KittyProtocolError>) -> bool {
    (result is Ok && quiet != KittyQuiet::Normal) || (result is Err && quiet == KittyQuiet::SuppressAll)
}

/// The APC response for a command: `ESC _ G i=<id>[,p=<pid>];<body> ESC \`,
/// or nothing when the command carries no image id or the quiet policy
/// suppresses it.
pub open spec fn spec_encode_response(
    context: KittyResponseContext,
    result: Result<(), KittyProtocolError>,
) -> Option<Seq<u8>> {
    match context.image_id {
        None => None,
        Some(image_id) => if response_suppressed(context.quiet, result) {
            None
        } else {
            Some(
                seq![0x1bu8, 0x5fu8, 0x47u8, 0x69u8, 0x3du8] + decimal(image_id as nat)
                    + match context.placement_id {
                        Some(placement_id) => seq![0x2cu8, 0x70u8, 0x3du8] + decimal(placement_id as nat),
                        None => Seq::<u8>::empty(),
                    }
                    + seq![0x3bu8] + response_body(result) + seq![0x1bu8, 0x5cu8],
            )
        },
    }
}

pub fn encode_response(
    context: KittyResponseContext,
    result: Result<(), KittyProtocolError>,
) -> (r: Option<Vec<u8>>)
    ensures
        match spec_encode_response(context, result) {
            Some(bytes) => r is Some && r.unwrap()@ == bytes,
            None => r is None,
        },
{
    let image_id = match context.image_id {
        Some(id) => id,
        None => return None,
    };
    let suppressed = match result {
        Ok(()) => match context.quiet {
            KittyQuiet::Normal => false,
            _ => true,
        },
        Err(_) => match context.quiet {
            KittyQuiet::SuppressAll => true,
            _ => false,
        },
    };
    if suppressed {
        return None;
    }
    let mut response: Vec<u8> = Vec::new();
    response.push(0x1b);
    response.push(0x5f);
    response.push(0x47);
    response.push(0x69);
    response.push(0x3d);
    push_decimal(&mut response, image_id as u64);
    let ghost head = response@;
    match context.placement_id {
        Some(placement_id) => {
            response.push(0x2c);
            response.push(0x70);
            response.push(0x3d);
            push_decimal(&mut response, placement_id as u64);
        },
        None => {},
    }
    let ghost ids = response@;
    response.push(0x3b);
    let ghost before_body = response@;
    match result {
        Ok(()) => {
            response.push(0x4f);
            response.push(0x4b);
        },
        Err(error) => {
            push_str(&mut response, error.code.as_str());
            if !error.message.is_empty() {
                response.push(0x3a);
                push_str(&mut response, error.message);
            }
        },
    }
    assert(response@ =~= before_body + response_body(result));
    response.push(0x1b);
    response.push(0x5c);
    proof {
        let expected = spec_encode_response(context, result).unwrap();
        assert(head =~= seq![0x1bu8, 0x5fu8, 0x47u8, 0x69u8, 0x3du8] + decimal(image_id as nat));
        assert(response@ =~= expected);
    }
    Some(response)
}

} // verus!
