use vstd::prelude::*;

use crate::text::opt_str_view;

verus! {

/// What the URL library makes of this base and these query pairs: the
/// parsed base with each pair appended to its query, percent-encoded, or
/// nothing exactly when the base is no parsable URL. A function of the base
/// and the pairs alone.
pub uninterp spec fn url_with_params_of(
    base: Seq<char>,
    params: Seq<(Seq<char>, Seq<char>)>,
) -> Option<Seq<char>>;

/// The views of a vector of query pairs.
pub open spec fn param_views(params: Seq<(String, String)>) -> Seq<(Seq<char>, Seq<char>)> {
    params.map_values(|p: (String, String)| (p.0@, p.1@))
}

/// Relies on `url::Url::parse_with_params`: parses the base and appends each
/// pair to the query, percent-encoded; it fails exactly when the base does
/// not parse, and both sides depend on the base and the pairs alone.
#[verifier::external_body]
pub(crate) fn url_with_params(base: &str, params: &Vec<(String, String)>) -> (r: Option<String>)
    ensures
        opt_str_view(r) == url_with_params_of(base@, param_views(params@)),
{
    match url::Url::parse_with_params(base, params.iter()) {
        Ok(u) => Some(u.into()),
        Err(_) => None,
    }
}

} // verus!
