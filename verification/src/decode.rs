//! Percent-decoding of a request path into text.
use percent_encoding::percent_decode_str;
use vstd::prelude::*;
use vstd::utf8::{decode_utf8, encode_utf8, valid_utf8};

verus! {

/// The byte `%`, which opens an escape.
pub const PERCENT: u8 = 0x25;

/// Whether the byte `b` is a hexadecimal digit: `0` to `9`, `A` to `F` or
/// `a` to `f`.
pub open spec fn is_hex(b: u8) -> bool {
    ||| 0x30 <= b <= 0x39
    ||| 0x41 <= b <= 0x46
    ||| 0x61 <= b <= 0x66
}

/// The number that the hexadecimal digit `b` stands for.
pub open spec fn hex_value(b: u8) -> int {
    if b <= 0x39 {
        b - 0x30
    } else if b <= 0x46 {
        b - 0x41 + 10
    } else {
        b - 0x61 + 10
    }
}

/// Whether `bytes` opens with an escape: `%` and two hexadecimal digits.
pub open spec fn opens_with_escape(bytes: Seq<u8>) -> bool {
    bytes.len() >= 3 && bytes[0] == PERCENT && is_hex(bytes[1]) && is_hex(bytes[2])
}

/// `bytes` with every escape replaced by the byte that its two digits
/// write. A `%` that opens no escape stands for itself.
pub open spec fn percent_decoded(bytes: Seq<u8>) -> Seq<u8>
    decreases bytes.len(),
{
    if bytes.len() == 0 {
        Seq::empty()
    } else if opens_with_escape(bytes) {
        seq![(hex_value(bytes[1]) * 16 + hex_value(bytes[2])) as u8] + percent_decoded(
            bytes.skip(3),
        )
    } else {
        seq![bytes[0]] + percent_decoded(bytes.skip(1))
    }
}

/// The text that the escaped text `text` stands for: its UTF-8 bytes are
/// percent-decoded and read as UTF-8 again. There is none where the decoded
/// bytes are not well-formed UTF-8.
pub open spec fn decoded_text(text: Seq<char>) -> Option<Seq<char>> {
    let bytes = percent_decoded(encode_utf8(text));
    if valid_utf8(bytes) {
        Some(decode_utf8(bytes))
    } else {
        None
    }
}

/// Percent-decodes `text` by `percent_encoding::percent_decode_str` and
/// reads the bytes as UTF-8 by `PercentDecode::decode_utf8`.
///
/// Trusted: the decoder replaces each `%` that two hexadecimal digits
/// follow by the byte they write and passes every other byte on, and the
/// result is `Ok` exactly where those bytes are well-formed UTF-8, holding
/// the text they encode.
#[verifier::external_body]
pub(crate) fn percent_decode_text(text: &str) -> (decoded: Option<String>)
    ensures
        match decoded {
            Some(plain) => decoded_text(text@) == Some(plain@),
            None => decoded_text(text@) is None,
        },
{
    match percent_decode_str(text).decode_utf8() {
        Ok(plain) => Some(plain.into_owned()),
        Err(_) => None,
    }
}

} // verus!
