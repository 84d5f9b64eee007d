//! What crosses a connection: the request text found in the read buffer,
//! and the bytes of the response.
use crate::error::{status_line, success_header, SUCCESS};
use crate::text::{chars_of, trim_matches, trim_matches_bounds};
use crate::worker::{outcome_view, Outcome, OutcomeView};
use vstd::prelude::*;
use vstd::string::{StrSliceExecFns, StringSliceAdditionalSpecFns};
use vstd::utf8::{decode_utf8, encode_utf8, valid_utf8};

verus! {

/// Size of the buffer that a request is read into.
pub const REQUEST_BUFFER: usize = 1026;

/// The byte that fills the part of the buffer that no request reached.
pub const FILL: char = '\0';

/// The text that `String::from_utf8_lossy` reads from `bytes`.
pub uninterp spec fn lossy_text(bytes: Seq<u8>) -> Seq<char>;

/// The request text in the read buffer `buffer`: the buffer read as text,
/// without the fill characters around it.
pub open spec fn request_of(buffer: Seq<u8>) -> Seq<char> {
    trim_matches(lossy_text(buffer), FILL)
}

/// The bytes that answer a request with `outcome`: the status line, and
/// after it the body where there is one.
pub open spec fn response_bytes(outcome: OutcomeView) -> Seq<u8> {
    match outcome {
        Ok((content_type, body)) => encode_utf8(status_line(SUCCESS, content_type)) + body,
        Err(e) => encode_utf8(status_line(e.code, e.meta)),
    }
}

/// Reads `bytes` as text by `String::from_utf8_lossy`.
///
/// Trusted: the text depends on the bytes alone, and bytes that are
/// well-formed UTF-8 give the text they encode.
#[verifier::external_body]
pub(crate) fn text_of_bytes(bytes: &[u8]) -> (text: String)
    ensures
        text@ == lossy_text(bytes@),
        valid_utf8(bytes@) ==> text@ == decode_utf8(bytes@),
{
    String::from_utf8_lossy(bytes).into_owned()
}

/// The request text in the read buffer `buffer`.
pub fn request_text(buffer: &[u8]) -> (request: String)
    ensures
        request@ == request_of(buffer@),
        valid_utf8(buffer@) ==> request@ == trim_matches(decode_utf8(buffer@), FILL),
{
    let text = text_of_bytes(buffer);
    let chars = chars_of(text.as_str());
    let (start, end) = trim_matches_bounds(&chars, FILL);
    text.as_str().substring_char(start, end).to_owned()
}

/// The bytes that answer a request with `outcome`.
pub fn respond(outcome: &Outcome) -> (bytes: Vec<u8>)
    ensures
        bytes@ == response_bytes(outcome_view(*outcome)),
{
    match outcome {
        Ok((content_type, body)) => {
            let header = success_header(content_type.as_str());
            let mut bytes = header.as_str().as_bytes_vec();
            bytes.extend_from_slice(body.as_slice());
            assert(bytes@ =~= encode_utf8(status_line(SUCCESS, content_type@)) + body@);
            bytes
        },
        Err(e) => e.to_string().as_str().as_bytes_vec(),
    }
}

} // verus!
