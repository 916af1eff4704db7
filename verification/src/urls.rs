//! The boundary to the URL parser: URL syntax itself is outside this
//! crate's rules, so what it needs of a URL — validity, the normalized
//! form, path segments and query pairs — comes through trusted items.

use vstd::prelude::*;

verus! {

#[verifier::external_type_specification]
#[verifier::external_body]
pub struct ExUrl(url::Url);

/// The normalized serialization of a URL string, `None` where the string is
/// not a valid URL. URL parsing is deterministic in its input alone, so the
/// result carries a name rather than a page of syntax rules.
pub uninterp spec fn normalized_url(s: Seq<char>) -> Option<Seq<char>>;

/// Relies on url::Url::parse and its Display form: parses an absolute URL
/// string and writes it back in normalized form.
#[verifier::external_body]
pub(crate) fn normalize_url(s: &str) -> (r: Option<String>)
    ensures
        match r {
            Some(t) => normalized_url(s@) == Some(t@),
            None => normalized_url(s@) is None,
        },
{
    match url::Url::parse(s) {
        Ok(u) => Some(u.to_string()),
        Err(_) => None,
    }
}

/// Relies on url::Url::path_segments: the `/`-separated segments of the
/// URL's path, or `None` for a cannot-be-a-base URL. The documentation
/// promises at least one (possibly empty) segment otherwise.
#[verifier::external_body]
pub(crate) fn url_path_segments(u: &url::Url) -> (r: Option<Vec<String>>)
    ensures
        r matches Some(segs) ==> segs@.len() >= 1,
{
    u.path_segments().map(|iter| iter.map(|s| s.to_string()).collect())
}

/// Relies on url::Url::query_pairs: the query parsed as
/// `application/x-www-form-urlencoded` key/value pairs, in order.
#[verifier::external_body]
pub(crate) fn url_query_pairs(u: &url::Url) -> (r: Vec<(String, String)>) {
    u.query_pairs().map(|(k, v)| (k.into_owned(), v.into_owned())).collect()
}

} // verus!
