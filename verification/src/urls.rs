//! Trusted access to URL parsing, resolution and percent-encoding.
//!
//! URL syntax is delegated to the `url` crate and percent-encoding to the
//! `urlencoding` crate. Each result is a function of the argument strings
//! alone, so each is given a name here, and the callers' contracts speak
//! of those names.

use vstd::prelude::*;

verus! {

/// Whether `s` parses as an absolute URL.
pub uninterp spec fn is_valid_url(s: Seq<char>) -> bool;

/// The serialization of the absolute URL that `href` resolves to against
/// the base URL `base`; `None` when `base` does not parse or the
/// resolution fails.
pub uninterp spec fn join_of(base: Seq<char>, href: Seq<char>) -> Option<Seq<char>>;

/// The host of the URL that `s` parses to; `None` when `s` does not parse
/// or its URL has no host.
pub uninterp spec fn host_of(s: Seq<char>) -> Option<Seq<char>>;

/// The percent-encoding of `s` as a URL query component.
pub uninterp spec fn encoded(s: Seq<char>) -> Seq<char>;

/// Relies on url's `Url::parse`: whether a string parses as an absolute
/// URL depends on the string alone.
#[verifier::external_body]
pub(crate) fn parse_ok(s: &str) -> (r: bool)
    ensures
        r == is_valid_url(s@),
{
    url::Url::parse(s).is_ok()
}

/// Relies on url's `Url::parse`, `Url::join` and `Url::as_str`: the
/// resolution of a reference against a base URL depends on the two strings
/// alone.
#[verifier::external_body]
pub(crate) fn resolve_href(base: &str, href: &str) -> (r: Option<String>)
    ensures
        r.deep_view() == join_of(base@, href@),
{
    url::Url::parse(base)
        .ok()
        .and_then(|b| b.join(href).ok())
        .map(|u| u.as_str().to_string())
}

/// Relies on url's `Url::parse` and `Url::host_str`: the host of a URL
/// string depends on the string alone.
#[verifier::external_body]
pub(crate) fn url_host(s: &str) -> (r: Option<String>)
    ensures
        r.deep_view() == host_of(s@),
{
    url::Url::parse(s).ok().and_then(|u| u.host_str().map(|h| h.to_string()))
}

/// Relies on urlencoding's `encode`: the percent-encoding of a string
/// depends on the string alone.
#[verifier::external_body]
pub(crate) fn encode_component(s: &str) -> (r: String)
    ensures
        r@ == encoded(s@),
{
    urlencoding::encode(s).into_owned()
}

} // verus!
