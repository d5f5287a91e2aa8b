//! Content-type inference for file fields.
//!
//! The mapping from a file path to a MIME type is an external table
//! lookup; the library only records its result verbatim.

use vstd::prelude::*;

verus! {

/// The content type inferred for a path: a pure function of the path
/// text, since the lookup goes by the path's extension alone and falls
/// back to a generic binary type.
pub uninterp spec fn mime_guess_of(path: Seq<char>) -> Seq<char>;

/// Relies on `mime_guess::from_path` and
/// `MimeGuess::first_or_octet_stream`: the guess is a static table lookup
/// on the path's extension, with `application/octet-stream` as the
/// fallback, so the result depends on the path text alone.
#[verifier::external_body]
pub(crate) fn guess_mime_type(path: &str) -> (r: String)
    ensures
        r@ == mime_guess_of(path@),
{
    mime_guess::from_path(path).first_or_octet_stream().to_string()
}

} // verus!
