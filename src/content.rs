//! The media type of an object, from the extension of its key.
use vstd::prelude::*;

verus! {

/// The media type that `mime_guess` assigns to a key: the first type known for
/// the key's extension, or `text/plain` when there is none.
pub uninterp spec fn content_type_of(key: Seq<char>) -> Seq<char>;

/// Relies on `mime_guess::from_path(..).first_or(mime::TEXT_PLAIN)`: the guess
/// reads the extension of the key alone, with no disk access.
#[verifier::external_body]
pub(crate) fn guess_content_type(key: &str) -> (r: String)
    ensures
        r@ == content_type_of(key@),
{
    mime_guess::from_path(key).first_or(mime::TEXT_PLAIN).to_string()
}

} // verus!
