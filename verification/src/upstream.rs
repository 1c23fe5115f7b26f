//! Upstream URI handling.
//!
//! The proxy resolves an inbound `Host` to an upstream base URI string and
//! needs that string's scheme and authority. Splitting a URI into components
//! is delegated to hyper's URI parser; the result is a pure function of the
//! input string, named here by `uri_parts_of`.

use vstd::prelude::*;

verus! {

/// What URI parsing extracts from a string: `None` when the string is not a
/// valid URI, otherwise the optional scheme and optional authority. A pure
/// function of the characters alone.
pub uninterp spec fn uri_parts_of(s: Seq<char>) -> Option<(Option<Seq<char>>, Option<Seq<char>>)>;

/// The character-level view of a parse result.
pub open spec fn parts_view(r: Option<(Option<String>, Option<String>)>) -> Option<
    (Option<Seq<char>>, Option<Seq<char>>),
> {
    match r {
        None => None,
        Some((s, a)) => Some(
            (
                match s {
                    None => None,
                    Some(x) => Some(x@),
                },
                match a {
                    None => None,
                    Some(x) => Some(x@),
                },
            ),
        ),
    }
}

/// Relies on hyper's URI parser (`<hyper::Uri as FromStr>::from_str`, then
/// `Uri::into_parts`): whether a string parses, and the scheme and authority
/// components it parses into, depend on the input characters alone.
#[verifier::external_body]
pub(crate) fn parse_uri_scheme_authority(s: &str) -> (r: Option<(Option<String>, Option<String>)>)
    ensures
        parts_view(r) == uri_parts_of(s@),
{
    match s.parse::<hyper::Uri>() {
        Ok(u) => {
            let parts = u.into_parts();
            Some(
                (
                    parts.scheme.map(|sc| sc.as_str().to_owned()),
                    parts.authority.map(|a| a.as_str().to_owned()),
                ),
            )
        },
        Err(_) => None,
    }
}

/// The fixed fallback upstream, used when the `Host` is absent, unmapped, or
/// mapped to a string that does not parse as a URI.
pub open spec fn fallback_upstream_spec() -> Seq<char> {
    "http://127.0.0.1:8000/"@
}

pub fn fallback_upstream() -> (r: &'static str)
    ensures
        r@ == fallback_upstream_spec(),
{
    "http://127.0.0.1:8000/"
}

} // verus!
