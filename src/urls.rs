//! Absolute-URL parsing, through the `url` crate.

use vstd::prelude::*;

use url::ParseError as P;

verus! {

/// Why a string is not accepted as a feed URL. All but the last variant are
/// the `url` crate's own reasons (`url::ParseError`), one for one.
#[derive(Debug, Clone, Copy, PartialEq, Eq, Structural)]
pub enum UrlError {
    EmptyHost,
    IdnaError,
    InvalidPort,
    InvalidIpv4Address,
    InvalidIpv6Address,
    InvalidDomainCharacter,
    RelativeUrlWithoutBase,
    RelativeUrlWithCannotBeABaseBase,
    SetHostOnCannotBeABaseUrl,
    Overflow,
    /// A reason that the `url` crate added after this list was written.
    Other,
    /// The string is an absolute URL, but one without a host (`mailto:`, `data:`).
    MissingHost,
}

/// The normalised serialisation of the absolute URL that `s` denotes, or
/// `None` where `s` is not an absolute URL.
pub uninterp spec fn url_serialization(s: Seq<char>) -> Option<Seq<char>>;

/// Whether the absolute URL that `s` denotes has a host.
pub uninterp spec fn url_has_host(s: Seq<char>) -> bool;

/// Why `s` is not an absolute URL.
pub uninterp spec fn url_parse_error(s: Seq<char>) -> UrlError;

/// Relies on `url::Url::parse` (an absolute URL, per the WHATWG URL standard),
/// on `From<Url> for String` (its serialisation) and on `Url::has_host`.
/// As the crate's own `Url::check_invariants` asserts, the serialisation
/// parses back to itself, and a URL with a host keeps it when re-parsed.
#[verifier::external_body]
pub(crate) fn parse_url(s: &str) -> (r: Result<(bool, String), UrlError>)
    ensures
        match r {
            Ok((host, t)) => {
                &&& url_serialization(s@) == Some(t@)
                &&& url_serialization(t@) == Some(t@)
                &&& host == url_has_host(s@)
                &&& host ==> url_has_host(t@)
            },
            Err(e) => url_serialization(s@) is None && e == url_parse_error(s@),
        },
{
    match url::Url::parse(s) {
        Ok(u) => Ok((u.has_host(), String::from(u))),
        Err(e) => Err(match e {
            P::EmptyHost => UrlError::EmptyHost, P::IdnaError => UrlError::IdnaError,
            P::InvalidPort => UrlError::InvalidPort, P::Overflow => UrlError::Overflow,
            P::InvalidIpv4Address => UrlError::InvalidIpv4Address, P::InvalidIpv6Address => UrlError::InvalidIpv6Address,
            P::InvalidDomainCharacter => UrlError::InvalidDomainCharacter, P::RelativeUrlWithoutBase => UrlError::RelativeUrlWithoutBase,
            P::RelativeUrlWithCannotBeABaseBase => UrlError::RelativeUrlWithCannotBeABaseBase, P::SetHostOnCannotBeABaseUrl => UrlError::SetHostOnCannotBeABaseUrl,
            _ => UrlError::Other,
        }),
    }
}

/// `s` is accepted as a feed URL: an absolute URL with a host.
pub open spec fn url_accepted(s: Seq<char>) -> bool {
    url_serialization(s) is Some && url_has_host(s)
}

/// Why `s` is not accepted as a feed URL.
pub open spec fn url_refusal(s: Seq<char>) -> UrlError {
    if url_serialization(s) is None {
        url_parse_error(s)
    } else {
        UrlError::MissingHost
    }
}

/// The normalised form of `s` where it is an absolute URL with a host.
pub fn accept_url(s: &str) -> (r: Result<String, UrlError>)
    ensures
        match r {
            Ok(t) => url_accepted(s@) && url_serialization(s@) == Some(t@) && url_accepted(t@)
                && url_serialization(t@) == Some(t@),
            Err(e) => !url_accepted(s@) && e == url_refusal(s@),
        },
{
    match parse_url(s) {
        Ok((host, t)) => if host {
            Ok(t)
        } else {
            Err(UrlError::MissingHost)
        },
        Err(e) => Err(e),
    }
}

} // verus!
