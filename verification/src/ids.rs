use vstd::prelude::*;

use crate::text::opt_str_view;

verus! {

/// The canonical form that the identifier library assigns to a text: the
/// lowercase hyphenated rendering when the text is one of the accepted
/// identifier spellings, nothing otherwise. A function of the characters
/// alone.
pub uninterp spec fn uuid_canon_of(s: Seq<char>) -> Option<Seq<char>>;

/// Relies on `uuid::Uuid::from_str` and the default `Display` of `Uuid`:
/// parsing accepts the documented identifier spellings and the rendering is
/// the lowercase hyphenated form; both depend on the characters alone.
#[verifier::external_body]
pub fn canonical_uuid(s: &str) -> (r: Option<String>)
    ensures
        opt_str_view(r) == uuid_canon_of(s@),
{
    match <uuid::Uuid as core::str::FromStr>::from_str(s) {
        Ok(u) => Some(u.to_string()),
        Err(_) => None,
    }
}

} // verus!
