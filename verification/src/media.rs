//! The content type of a file, guessed from its name.
use vstd::prelude::*;

verus! {

/// The media type that `mime_guess` gives a file of the name `path`.
pub uninterp spec fn guessed_media_type(path: Seq<char>) -> Seq<char>;

/// Guesses the media type of `path` from its extension by
/// `mime_guess::from_path` and `MimeGuess::first_or_octet_stream`.
///
/// Trusted: the guess reads nothing but the text of `path`, so the same
/// path always gives the same media type.
#[verifier::external_body]
pub(crate) fn media_type_of(path: &str) -> (media_type: String)
    ensures
        media_type@ == guessed_media_type(path@),
{
    mime_guess::from_path(path).first_or_octet_stream().to_string()
}

} // verus!
