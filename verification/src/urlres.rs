//! Relative URL resolution, through the `url` crate.

use vstd::prelude::*;

verus! {

/// What resolving the relative reference `rel` against the absolute URL
/// `base` yields: the resolved URL's text, or `None` when `base` does not
/// parse as an absolute URL or the reference cannot be resolved against it.
/// RFC 3986 resolution (scheme/host/path inheritance, `.`/`..`
/// normalization) is a function of the two strings alone.
pub uninterp spec fn url_resolved(base: Seq<u8>, rel: Seq<u8>) -> Option<Seq<u8>>;

/// Relies on `url::Url::parse` and `url::Url::join` for RFC 3986
/// relative-reference resolution, and on `url::Url::as_str` for the text of
/// the result; all three depend on their arguments alone. Input that is not
/// UTF-8 resolves to nothing.
#[verifier::external_body]
pub fn resolve_url(base: &[u8], rel: &[u8]) -> (r: Option<Vec<u8>>)
    ensures
        match r {
            Some(v) => url_resolved(base@, rel@) == Some(v@),
            None => url_resolved(base@, rel@) is None,
        },
{
    let base_s = match std::str::from_utf8(base) { Ok(t) => t, Err(_) => return None };
    let rel_s = match std::str::from_utf8(rel) { Ok(t) => t, Err(_) => return None };
    let parsed = match url::Url::parse(base_s) { Ok(u) => u, Err(_) => return None };
    match parsed.join(rel_s) {
        Ok(u) => Some(u.as_str().as_bytes().to_vec()),
        Err(_) => None,
    }
}

} // verus!
