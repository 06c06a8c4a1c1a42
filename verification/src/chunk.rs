//! The chunk reader: the single primitive every higher decoder calls.
//!
//! A chunk is `length:u32-LE | tag:[u8;4] | payload:[u8;length]`; whatever
//! follows the payload is the remainder. The reader splits a byte slice into
//! those parts without interpreting the payload.

use crate::errors::DecodeError;
use vstd::bytes::spec_u32_from_le_bytes;
use vstd::bytes::u32_from_le_bytes;
use vstd::prelude::*;
use vstd::slice::slice_subrange;
use vstd::slice::slice_to_vec;
use vstd::utf8::decode_utf8;
use vstd::utf8::valid_utf8;

verus! {

/// Mathematical image of a decoded chunk: declared length, decoded tag
/// text, payload bytes, and the bytes that follow the payload.
#[verifier::ext_equal]
pub struct SpecData {
    pub len: u32,
    pub name: Seq<char>,
    pub data: Seq<u8>,
    pub rem: Seq<u8>,
}

/// One chunk read from the front of a byte buffer. `data` and `rem` borrow
/// from the buffer the chunk was read from; nothing is copied but the tag.
#[derive(Debug, PartialEq)]
pub struct Data<'a> {
    /// Declared payload length in bytes; always equals `data.len()`.
    pub len: u32,
    /// The four tag bytes, decoded as text.
    pub name: String,
    /// Exactly `len` payload bytes.
    pub data: &'a [u8],
    /// Every byte after the payload.
    pub rem: &'a [u8],
}

impl<'a> View for Data<'a> {
    type V = SpecData;

    open spec fn view(&self) -> SpecData {
        SpecData { len: self.len, name: self.name@, data: self.data@, rem: self.rem@ }
    }
}

/// Relates an executable decode result to its mathematical counterpart:
/// success with the same value under the view, or the same error.
pub open spec fn decoded<T: View>(r: Result<T, DecodeError>, m: Result<T::V, DecodeError>) -> bool {
    match (r, m) {
        (Ok(v), Ok(mv)) => v@ == mv,
        (Err(e), Err(me)) => e == me,
        _ => false,
    }
}

/// What reading one chunk from the front of `s` yields. Fails with
/// `Truncated` whenever `s` is shorter than `8 + length`, and with
/// `InvalidTag` when the four tag bytes are not valid UTF-8.
pub open spec fn spec_parse_value(s: Seq<u8>) -> Result<SpecData, DecodeError> {
    if s.len() < 8 {
        Err(DecodeError::Truncated)
    } else {
        let len = spec_u32_from_le_bytes(s.subrange(0, 4));
        if s.len() < 8 + len {
            Err(DecodeError::Truncated)
        } else if !valid_utf8(s.subrange(4, 8)) {
            Err(DecodeError::InvalidTag)
        } else {
            Ok(
                SpecData {
                    len,
                    name: decode_utf8(s.subrange(4, 8)),
                    data: s.subrange(8, 8 + len),
                    rem: s.subrange(8 + len, s.len() as int),
                },
            )
        }
    }
}

/// Relies on `String::from_utf8`: it returns `Ok` exactly when the bytes
/// are valid UTF-8, and the string then holds their decoding.
#[verifier::external_body]
pub(crate) fn utf8_string(bytes: Vec<u8>) -> (r: Option<String>)
    ensures
        r is Some <==> valid_utf8(bytes@),
        r matches Some(s) ==> s@ == decode_utf8(bytes@),
{
    String::from_utf8(bytes).ok()
}

/// Read one chunk from the front of `data`: a 4-byte little-endian length
/// `L`, four tag bytes decoded as text, then exactly `L` payload bytes;
/// the remainder is every byte after that.
pub fn parse_value<'a>(data: &'a [u8]) -> (r: Result<Data<'a>, DecodeError>)
    ensures
        decoded(r, spec_parse_value(data@)),
{
    if data.len() < 8 {
        return Err(DecodeError::Truncated);
    }
    let len = u32_from_le_bytes(slice_subrange(data, 0, 4));
    if data.len() - 8 < len as usize {
        return Err(DecodeError::Truncated);
    }
    let tag = slice_subrange(data, 4, 8);
    let name = match utf8_string(slice_to_vec(tag)) {
        Some(s) => s,
        None => {
            return Err(DecodeError::InvalidTag);
        },
    };
    let payload = slice_subrange(data, 8, 8 + len as usize);
    let rem = slice_subrange(data, 8 + len as usize, data.len());
    Ok(Data { len, name, data: payload, rem })
}

} // verus!
