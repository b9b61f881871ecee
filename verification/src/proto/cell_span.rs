//! Knightty cell-span text commands carried in OSC 7777.

use vstd::prelude::*;
use vstd::string::StringSliceAdditionalSpecFns;
use vstd::utf8::decode_utf8;
use crate::text::{
    all_digits, digits_value, find_byte, first_index, has_control, lemma_str_chars,
    parse_digits_u32, split_after_ascii, starts_with, str_has_control,
};
use unicode_segmentation::UnicodeSegmentation;

verus! {

/// OSC payload prefix of a cell-span command (`7777;knightty;`).
pub const OSC_PREFIX: [u8; 14] = [0x37, 0x37, 0x37, 0x37, 0x3b, 0x6b, 0x6e, 0x69, 0x67, 0x68, 0x74, 0x74, 0x79, 0x3b];

/// One Knightty cell-span text command parsed from an OSC 7777 payload.
#[derive(Clone, Copy, Debug, PartialEq, Eq)]
pub struct CellSpanCommand<'a> {
    pub columns: u16,
    pub rows: u16,
    pub text: &'a str,
}

#[derive(Clone, Copy, Debug, PartialEq, Eq)]
pub enum CellSpanParseError {
    MalformedCommand,
    MalformedDimensions,
    InvalidDimension,
    MissingText,
    ControlCharacter,
}

/// `span=` as bytes.
pub open spec fn span_prefix() -> Seq<u8> {
    seq![0x73u8, 0x70u8, 0x61u8, 0x6eu8, 0x3du8]
}

/// A positive 16-bit cell count written in decimal, with an optional `+`.
pub open spec fn spec_parse_dimension(value: Seq<u8>) -> Result<u16, CellSpanParseError> {
    let digits = if value.len() > 0 && value[0] == 0x2b { value.drop_first() } else { value };
    if digits.len() > 0 && all_digits(digits) && 0 < digits_value(digits) <= u16::MAX {
        Ok(digits_value(digits) as u16)
    } else {
        Err(CellSpanParseError::InvalidDimension)
    }
}

fn parse_dimension(value: &[u8]) -> (r: Result<u16, CellSpanParseError>)
    ensures
        r == spec_parse_dimension(value@),
{
    let len = value.len();
    let digits = if len > 0 && value[0] == 0x2b { &value[1..len] } else { value };
    assert(len > 0 && value@[0] == 0x2b ==> digits@ =~= value@.drop_first());
    match parse_digits_u32(digits) {
        Some(v) => if 0 < v && v <= 0xffff {
            Ok(v as u16)
        } else {
            Err(CellSpanParseError::InvalidDimension)
        },
        None => Err(CellSpanParseError::InvalidDimension),
    }
}

/// Columns, rows and the UTF-8 text of a cell-span payload
/// `span=<columns>x<rows>:<text>`.
pub open spec fn spec_parse_cell_span(payload: Seq<u8>) -> Result<(u16, u16, Seq<u8>), CellSpanParseError> {
    if !(payload.len() >= 5 && payload.take(5) == span_prefix()) {
        Err(CellSpanParseError::MalformedCommand)
    } else {
        let rest = payload.skip(5);
        match first_index(rest, 0x3a) {
            None => Err(CellSpanParseError::MalformedCommand),
            Some(colon) => {
                let dims = rest.take(colon);
                let text = rest.skip(colon + 1);
                match first_index(dims, 0x78) {
                    None => Err(CellSpanParseError::MalformedDimensions),
                    Some(x) => match spec_parse_dimension(dims.take(x)) {
                        Err(e) => Err(e),
                        Ok(columns) => match spec_parse_dimension(dims.skip(x + 1)) {
                            Err(e) => Err(e),
                            Ok(rows) => if text.len() == 0 {
                                Err(CellSpanParseError::MissingText)
                            } else if has_control(decode_utf8(text)) {
                                Err(CellSpanParseError::ControlCharacter)
                            } else {
                                Ok((columns, rows, text))
                            },
                        },
                    },
                }
            },
        }
    }
}

/// `UnicodeSegmentation::graphemes(text, true).next()`: the first extended
/// grapheme cluster, which exists exactly when the text is not empty.
#[verifier::external_body]
fn first_grapheme<'a>(text: &'a str) -> (r: Option<&'a str>)
    ensures
        r is Some <==> text@.len() > 0,
{
    text.graphemes(true).next()
}

/// Parse the payload following `7777;knightty;`.
pub fn parse_cell_span(payload: &str) -> (r: Result<CellSpanCommand<'_>, CellSpanParseError>)
    ensures
        match spec_parse_cell_span(payload.spec_bytes()) {
            Ok((columns, rows, text)) => r matches Ok(c) && c.columns == columns && c.rows == rows
                && c.text.spec_bytes() == text,
            Err(e) => r == Err::<CellSpanCommand<'_>, CellSpanParseError>(e),
        },
{
    let bytes = payload.as_bytes();
    let prefix: [u8; 5] = [0x73, 0x70, 0x61, 0x6e, 0x3d];
    if !starts_with(bytes, prefix.as_slice()) {
        assert(prefix@ =~= span_prefix());
        return Err(CellSpanParseError::MalformedCommand);
    }
    assert(prefix@ =~= span_prefix());
    let rest = &bytes[5..bytes.len()];
    assert(rest@ =~= bytes@.skip(5));
    let colon = match find_byte(rest, 0x3a) {
        None => return Err(CellSpanParseError::MalformedCommand),
        Some(colon) => colon,
    };
    let dims = &rest[0..colon];
    assert(dims@ =~= rest@.take(colon as int));
    let x = match find_byte(dims, 0x78) {
        None => return Err(CellSpanParseError::MalformedDimensions),
        Some(x) => x,
    };
    let dims_len = dims.len();
    let column_text = &dims[0..x];
    let row_text = &dims[x + 1..dims_len];
    assert(column_text@ =~= dims@.take(x as int));
    assert(row_text@ =~= dims@.skip(x + 1));
    let columns = match parse_dimension(column_text) {
        Ok(v) => v,
        Err(e) => return Err(e),
    };
    let rows = match parse_dimension(row_text) {
        Ok(v) => v,
        Err(e) => return Err(e),
    };
    assert(bytes@[5 + colon] == rest@[colon as int]);
    let (_, text) = split_after_ascii(payload, 5 + colon);
    assert(text.spec_bytes() =~= rest@.skip(colon + 1));
    proof {
        lemma_str_chars(text);
    }
    if text.len() == 0 {
        return Err(CellSpanParseError::MissingText);
    }
    if str_has_control(text) {
        return Err(CellSpanParseError::ControlCharacter);
    }
    if first_grapheme(text).is_none() {
        assert(text.spec_bytes().len() == 0);
        return Err(CellSpanParseError::MissingText);
    }
    Ok(CellSpanCommand { columns, rows, text })
}

} // verus!
