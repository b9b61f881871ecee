//! iTerm2 inline-image OSC 1337 `File=` commands.

use vstd::prelude::*;
use vstd::string::StringSliceAdditionalSpecFns;
use vstd::utf8::{decode_utf8, valid_utf8};
use crate::text::{string_from_utf8, 
    all_digits, bytes_equal, digits_value, find_byte, first_index,
    parse_digits_u32, split_after_ascii, split_bytes, starts_with, is_first_index,
};
use base64::Engine;

verus! {

pub const MAX_METADATA_BYTES: usize = 4096;

/// Cell-based dimension accepted for inline images.
#[derive(Clone, Copy, Debug, PartialEq, Eq)]
pub enum ImageDimension {
    Auto,
    Cells(u16),
}

/// Parsed iTerm2 `File=...:<payload>` inline-image command.
#[derive(Clone, Debug, PartialEq, Eq)]
pub struct InlineImageSequence<'a> {
    pub name: Option<String>,
    pub width: Option<ImageDimension>,
    pub height: Option<ImageDimension>,
    pub payload: &'a str,
}

#[derive(Clone, Copy, Debug, PartialEq, Eq)]
pub enum InlineImageParseError {
    UnsupportedCommand,
    MissingColon,
    MissingPayload,
    MetadataTooLarge,
    MalformedAttribute,
    DuplicateAttribute,
    MissingInline,
    InlineDisabled,
    InvalidName,
    UnsupportedDimension,
    UnsupportedAspectRatio,
}

/// The bytes that the standard base64 alphabet (with padding) decodes
/// `input` to, or nothing when `input` is not valid base64.
pub uninterp spec fn base64_standard_decode(input: Seq<u8>) -> Option<Seq<u8>>;

pub open spec fn option_bytes_view(v: Option<Vec<u8>>) -> Option<Seq<u8>> {
    match v {
        Some(bytes) => Some(bytes@),
        None => None,
    }
}

/// `base64::engine::general_purpose::STANDARD.decode(input)`, with the
/// decode error dropped.
#[verifier::external_body]
pub(crate) fn decode_base64_standard(input: &[u8]) -> (r: Option<Vec<u8>>)
    ensures
        option_bytes_view(r) == base64_standard_decode(input@),
{
    base64::engine::general_purpose::STANDARD.decode(input).ok()
}

/// `File=` as bytes.
pub open spec fn file_prefix() -> Seq<u8> {
    seq![0x46u8, 0x69u8, 0x6cu8, 0x65u8, 0x3du8]
}

pub open spec fn key_inline() -> Seq<u8> {
    seq![0x69u8, 0x6eu8, 0x6cu8, 0x69u8, 0x6eu8, 0x65u8]
}

pub open spec fn key_name() -> Seq<u8> {
    seq![0x6eu8, 0x61u8, 0x6du8, 0x65u8]
}

pub open spec fn key_width() -> Seq<u8> {
    seq![0x77u8, 0x69u8, 0x64u8, 0x74u8, 0x68u8]
}

pub open spec fn key_height() -> Seq<u8> {
    seq![0x68u8, 0x65u8, 0x69u8, 0x67u8, 0x68u8, 0x74u8]
}

/// `preserveAspectRatio` as bytes.
pub open spec fn key_preserve_aspect_ratio() -> Seq<u8> {
    seq![
        0x70u8, 0x72u8, 0x65u8, 0x73u8, 0x65u8, 0x72u8, 0x76u8, 0x65u8, 0x41u8, 0x73u8,
        0x70u8, 0x65u8, 0x63u8, 0x74u8, 0x52u8, 0x61u8, 0x74u8, 0x69u8, 0x6fu8,
    ]
}

/// `auto`, or a positive 16-bit cell count written with digits only.
pub open spec fn spec_image_dimension(value: Seq<u8>) -> Result<ImageDimension, InlineImageParseError> {
    if value == seq![0x61u8, 0x75u8, 0x74u8, 0x6fu8] {
        Ok(ImageDimension::Auto)
    } else if value.len() > 0 && all_digits(value) && 0 < digits_value(value) <= u16::MAX {
        Ok(ImageDimension::Cells(digits_value(value) as u16))
    } else {
        Err(InlineImageParseError::UnsupportedDimension)
    }
}

fn parse_dimension(value: &[u8]) -> (r: Result<ImageDimension, InlineImageParseError>)
    ensures
        r == spec_image_dimension(value@),
{
    let auto: [u8; 4] = [0x61, 0x75, 0x74, 0x6f];
    if bytes_equal(value, auto.as_slice()) {
        assert(value@ =~= seq![0x61u8, 0x75u8, 0x74u8, 0x6fu8]);
        return Ok(ImageDimension::Auto);
    }
    assert(value@ != seq![0x61u8, 0x75u8, 0x74u8, 0x6fu8]) by {
        assert(auto@ =~= seq![0x61u8, 0x75u8, 0x74u8, 0x6fu8]);
    }
    match parse_digits_u32(value) {
        Some(v) => if 0 < v && v <= 0xffff {
            Ok(ImageDimension::Cells(v as u16))
        } else {
            Err(InlineImageParseError::UnsupportedDimension)
        },
        None => Err(InlineImageParseError::UnsupportedDimension),
    }
}

/// The attributes of the metadata read so far.
pub struct InlineAttributes {
    pub inline: Option<Seq<u8>>,
    pub name: Option<Seq<char>>,
    pub width: Option<ImageDimension>,
    pub height: Option<ImageDimension>,
    pub preserve_aspect_ratio: Option<Seq<u8>>,
}

pub open spec fn no_inline_attributes() -> InlineAttributes {
    InlineAttributes { inline: None, name: None, width: None, height: None, preserve_aspect_ratio: None }
}

/// The effect of one `key=value` metadata attribute; unknown keys are ignored.
pub open spec fn spec_inline_attribute(st: InlineAttributes, attr: Seq<u8>) -> Result<InlineAttributes, InlineImageParseError> {
    match first_index(attr, 0x3d) {
        None => Err(InlineImageParseError::MalformedAttribute),
        Some(i) => {
            let key = attr.take(i);
            let value = attr.skip(i + 1);
            if key.len() == 0 || value.len() == 0 {
                Err(InlineImageParseError::MalformedAttribute)
            } else if key == key_inline() {
                if st.inline is Some {
                    Err(InlineImageParseError::DuplicateAttribute)
                } else {
                    Ok(InlineAttributes { inline: Some(value), ..st })
                }
            } else if key == key_name() {
                if st.name is Some {
                    Err(InlineImageParseError::DuplicateAttribute)
                } else {
                    match base64_standard_decode(value) {
                        Some(decoded) => if valid_utf8(decoded) {
                            Ok(InlineAttributes { name: Some(decode_utf8(decoded)), ..st })
                        } else {
                            Err(InlineImageParseError::InvalidName)
                        },
                        None => Err(InlineImageParseError::InvalidName),
                    }
                }
            } else if key == key_width() {
                match spec_image_dimension(value) {
                    Err(e) => Err(e),
                    Ok(d) => if st.width is Some {
                        Err(InlineImageParseError::DuplicateAttribute)
                    } else {
                        Ok(InlineAttributes { width: Some(d), ..st })
                    },
                }
            } else if key == key_height() {
                match spec_image_dimension(value) {
                    Err(e) => Err(e),
                    Ok(d) => if st.height is Some {
                        Err(InlineImageParseError::DuplicateAttribute)
                    } else {
                        Ok(InlineAttributes { height: Some(d), ..st })
                    },
                }
            } else if key == key_preserve_aspect_ratio() {
                if st.preserve_aspect_ratio is Some {
                    Err(InlineImageParseError::DuplicateAttribute)
                } else {
                    Ok(InlineAttributes { preserve_aspect_ratio: Some(value), ..st })
                }
            } else {
                Ok(st)
            }
        },
    }
}

pub open spec fn spec_inline_attributes(st: InlineAttributes, attrs: Seq<Seq<u8>>) -> Result<InlineAttributes, InlineImageParseError>
    decreases attrs.len(),
{
    if attrs.len() == 0 {
        Ok(st)
    } else {
        match spec_inline_attribute(st, attrs[0]) {
            Ok(next) => spec_inline_attributes(next, attrs.drop_first()),
            Err(e) => Err(e),
        }
    }
}

/// Name, width, height and payload bytes of an inline-image command
/// `File=<metadata>:<payload>`.
pub open spec fn spec_parse_inline_image(sequence: Seq<u8>)
    -> Result<(Option<Seq<char>>, Option<ImageDimension>, Option<ImageDimension>, Seq<u8>), InlineImageParseError>
{
    if !(sequence.len() >= 5 && sequence.take(5) == file_prefix()) {
        Err(InlineImageParseError::UnsupportedCommand)
    } else {
        let command = sequence.skip(5);
        match first_index(command, 0x3a) {
            None => Err(InlineImageParseError::MissingColon),
            Some(colon) => {
                let metadata = command.take(colon);
                let payload = command.skip(colon + 1);
                if metadata.len() > MAX_METADATA_BYTES {
                    Err(InlineImageParseError::MetadataTooLarge)
                } else if payload.len() == 0 {
                    Err(InlineImageParseError::MissingPayload)
                } else {
                    match spec_inline_attributes(no_inline_attributes(), split_bytes(metadata, 0x3b)) {
                        Err(e) => Err(e),
                        Ok(st) => match st.inline {
                            None => Err(InlineImageParseError::MissingInline),
                            Some(flag) => if flag != seq![0x31u8] {
                                Err(InlineImageParseError::InlineDisabled)
                            } else if st.preserve_aspect_ratio matches Some(p) && p != seq![0x31u8] {
                                Err(InlineImageParseError::UnsupportedAspectRatio)
                            } else {
                                Ok((st.name, st.width, st.height, payload))
                            },
                        },
                    }
                }
            },
        }
    }
}


struct AttributeSlots<'a> {
    inline: Option<&'a [u8]>,
    name: Option<String>,
    width: Option<ImageDimension>,
    height: Option<ImageDimension>,
    preserve_aspect_ratio: Option<&'a [u8]>,
}

impl<'a> AttributeSlots<'a> {
    spec fn view_attributes(&self) -> InlineAttributes {
        InlineAttributes {
            inline: match self.inline { Some(v) => Some(v@), None => None },
            name: match self.name { Some(n) => Some(n@), None => None },
            width: self.width,
            height: self.height,
            preserve_aspect_ratio: match self.preserve_aspect_ratio { Some(v) => Some(v@), None => None },
        }
    }
}

fn apply_inline_attribute<'a>(st: &mut AttributeSlots<'a>, attr: &'a [u8]) -> (r: Result<(), InlineImageParseError>)
    ensures
        match spec_inline_attribute(old(st).view_attributes(), attr@) {
            Ok(next) => r is Ok && final(st).view_attributes() == next,
            Err(e) => r == Err::<(), InlineImageParseError>(e),
        },
{
    let i = match find_byte(attr, 0x3d) {
        None => return Err(InlineImageParseError::MalformedAttribute),
        Some(i) => i,
    };
    let len = attr.len();
    let key = &attr[0..i];
    let value = &attr[i + 1..len];
    assert(key@ =~= attr@.take(i as int));
    assert(value@ =~= attr@.skip(i + 1));
    if key.len() == 0 || value.len() == 0 {
        return Err(InlineImageParseError::MalformedAttribute);
    }
    let k_inline: [u8; 6] = [0x69, 0x6e, 0x6c, 0x69, 0x6e, 0x65];
    let k_name: [u8; 4] = [0x6e, 0x61, 0x6d, 0x65];
    let k_width: [u8; 5] = [0x77, 0x69, 0x64, 0x74, 0x68];
    let k_height: [u8; 6] = [0x68, 0x65, 0x69, 0x67, 0x68, 0x74];
    let k_preserve: [u8; 19] = [
        0x70, 0x72, 0x65, 0x73, 0x65, 0x72, 0x76, 0x65, 0x41, 0x73,
        0x70, 0x65, 0x63, 0x74, 0x52, 0x61, 0x74, 0x69, 0x6f,
    ];
    assert(k_inline@ =~= key_inline());
    assert(k_name@ =~= key_name());
    assert(k_width@ =~= key_width());
    assert(k_height@ =~= key_height());
    assert(k_preserve@ =~= key_preserve_aspect_ratio());
    if bytes_equal(key, k_inline.as_slice()) {
        if st.inline.is_some() {
            return Err(InlineImageParseError::DuplicateAttribute);
        }
        st.inline = Some(value);
        Ok(())
    } else if bytes_equal(key, k_name.as_slice()) {
        if st.name.is_some() {
            return Err(InlineImageParseError::DuplicateAttribute);
        }
        let decoded = match decode_base64_standard(value) {
            Some(d) => d,
            None => return Err(InlineImageParseError::InvalidName),
        };
        match string_from_utf8(decoded) {
            Some(name) => {
                st.name = Some(name);
                Ok(())
            },
            None => Err(InlineImageParseError::InvalidName),
        }
    } else if bytes_equal(key, k_width.as_slice()) {
        let d = match parse_dimension(value) {
            Ok(d) => d,
            Err(e) => return Err(e),
        };
        if st.width.is_some() {
            return Err(InlineImageParseError::DuplicateAttribute);
        }
        st.width = Some(d);
        Ok(())
    } else if bytes_equal(key, k_height.as_slice()) {
        let d = match parse_dimension(value) {
            Ok(d) => d,
            Err(e) => return Err(e),
        };
        if st.height.is_some() {
            return Err(InlineImageParseError::DuplicateAttribute);
        }
        st.height = Some(d);
        Ok(())
    } else if bytes_equal(key, k_preserve.as_slice()) {
        if st.preserve_aspect_ratio.is_some() {
            return Err(InlineImageParseError::DuplicateAttribute);
        }
        st.preserve_aspect_ratio = Some(value);
        Ok(())
    } else {
        Ok(())
    }
}

fn read_attributes<'a>(metadata: &'a [u8]) -> (r: Result<AttributeSlots<'a>, InlineImageParseError>)
    ensures
        match spec_inline_attributes(no_inline_attributes(), split_bytes(metadata@, 0x3b)) {
            Ok(st) => r matches Ok(slots) && slots.view_attributes() == st,
            Err(e) => r matches Err(e2) && e2 == e,
        },
{
    let mut st = AttributeSlots { inline: None, name: None, width: None, height: None, preserve_aspect_ratio: None };
    let ghost all = split_bytes(metadata@, 0x3b);
    let mut start: usize = 0;
    assert(metadata@.skip(0) =~= metadata@);
    let mut done = false;
    while !done
        invariant
            start <= metadata@.len(),
            all == split_bytes(metadata@, 0x3b),
            !done ==> spec_inline_attributes(no_inline_attributes(), all)
                == spec_inline_attributes(st.view_attributes(), split_bytes(metadata@.skip(start as int), 0x3b)),
            done ==> spec_inline_attributes(no_inline_attributes(), all) == Ok::<InlineAttributes, InlineImageParseError>(st.view_attributes()),
        decreases metadata@.len() - start + (if done { 0int } else { 1int }),
    {
        let rest = &metadata[start..metadata.len()];
        assert(rest@ =~= metadata@.skip(start as int));
        let ghost pieces = split_bytes(rest@, 0x3b);
        let ghost before = st.view_attributes();
        match find_byte(rest, 0x3b) {
            Some(i) => {
                let attr = &rest[0..i];
                assert(attr@ =~= rest@.take(i as int));
                assert(rest@.skip(i + 1) =~= metadata@.skip(start + i + 1));
                assert(pieces[0] == attr@);
                assert(pieces.drop_first() =~= split_bytes(rest@.skip(i + 1), 0x3b));
                match apply_inline_attribute(&mut st, attr) {
                    Ok(()) => {},
                    Err(e) => return Err(e),
                }
                start = start + i + 1;
            },
            None => {
                assert(!exists|j: int| is_first_index(rest@, 0x3b, j));
                assert(pieces =~= seq![rest@]);
                assert(pieces.drop_first() =~= Seq::<Seq<u8>>::empty());
                match apply_inline_attribute(&mut st, rest) {
                    Ok(()) => {},
                    Err(e) => return Err(e),
                }
                assert(spec_inline_attributes(st.view_attributes(), pieces.drop_first())
                    == Ok::<InlineAttributes, InlineImageParseError>(st.view_attributes()));
                done = true;
            },
        }
    }
    Ok(st)
}

/// Parse one iTerm2 inline-image OSC payload after the `1337;` prefix.
pub fn parse_iterm2_inline_image(sequence: &str) -> (r: Result<InlineImageSequence<'_>, InlineImageParseError>)
    ensures
        match spec_parse_inline_image(sequence.spec_bytes()) {
            Ok((name, width, height, payload)) => r matches Ok(image)
                && (match image.name { Some(n) => name == Some(n@), None => name is None })
                && image.width == width && image.height == height
                && image.payload.spec_bytes() == payload,
            Err(e) => r matches Err(e2) && e2 == e,
        },
{
    let bytes = sequence.as_bytes();
    let prefix: [u8; 5] = [0x46, 0x69, 0x6c, 0x65, 0x3d];
    assert(prefix@ =~= file_prefix());
    if !starts_with(bytes, prefix.as_slice()) {
        return Err(InlineImageParseError::UnsupportedCommand);
    }
    let command = &bytes[5..bytes.len()];
    assert(command@ =~= bytes@.skip(5));
    let colon = match find_byte(command, 0x3a) {
        None => return Err(InlineImageParseError::MissingColon),
        Some(colon) => colon,
    };
    let metadata = &command[0..colon];
    assert(metadata@ =~= command@.take(colon as int));
    if metadata.len() > MAX_METADATA_BYTES {
        return Err(InlineImageParseError::MetadataTooLarge);
    }
    assert(bytes@[5 + colon] == command@[colon as int]);
    let (_, payload) = split_after_ascii(sequence, 5 + colon);
    assert(payload.spec_bytes() =~= command@.skip(colon + 1));
    if payload.len() == 0 {
        return Err(InlineImageParseError::MissingPayload);
    }

    let st = match read_attributes(metadata) {
        Ok(st) => st,
        Err(e) => return Err(e),
    };
    let one: [u8; 1] = [0x31];
    assert(one@ =~= seq![0x31u8]);
    match st.inline {
        None => return Err(InlineImageParseError::MissingInline),
        Some(flag) => {
            if !bytes_equal(flag, one.as_slice()) {
                return Err(InlineImageParseError::InlineDisabled);
            }
        },
    }
    match st.preserve_aspect_ratio {
        Some(p) => {
            if !bytes_equal(p, one.as_slice()) {
                return Err(InlineImageParseError::UnsupportedAspectRatio);
            }
        },
        None => {},
    }
    Ok(InlineImageSequence { name: st.name, width: st.width, height: st.height, payload })
}

} // verus!
