//! URL parsing, done by the `url` crate. The library reads three things of
//! a parsed URL (its scheme, the ASCII serialisation of its origin and its
//! last path segment) and holds them as plain strings.

use vstd::prelude::*;

verus! {

/// What the library reads of a URL that `url::Url::parse` accepted.
pub struct ParsedUrl {
    /// `Url::scheme`, e.g. `https`.
    pub scheme: String,
    /// `Url::origin().ascii_serialization()`, e.g. `https://example.com`;
    /// `null` for an opaque origin.
    pub origin: String,
    /// The last of `Url::path_segments`, where the URL has path segments.
    pub last_segment: Option<String>,
}

pub struct ParsedUrlView {
    pub scheme: Seq<char>,
    pub origin: Seq<char>,
    pub last_segment: Option<Seq<char>>,
}

impl View for ParsedUrl {
    type V = ParsedUrlView;

    open spec fn view(&self) -> ParsedUrlView {
        ParsedUrlView {
            scheme: self.scheme@,
            origin: self.origin@,
            last_segment: match self.last_segment {
                Some(s) => Some(s@),
                None => None,
            },
        }
    }
}

pub open spec fn parsed_view(p: Option<ParsedUrl>) -> Option<ParsedUrlView> {
    match p {
        Some(u) => Some(u@),
        None => None,
    }
}

/// What `url::Url::parse` makes of a string (WHATWG URL parsing), read as
/// scheme, origin and last path segment; `None` where it refuses the string.
pub uninterp spec fn url_parse(s: Seq<char>) -> Option<ParsedUrlView>;

/// Parses `s` with `url::Url::parse` and reads the scheme, the origin's
/// ASCII serialisation and the last path segment of the result. The
/// contract only names the outcome: WHATWG URL parsing is not restated.
#[verifier::external_body]
pub(crate) fn parse_url(s: &str) -> (r: Option<ParsedUrl>)
    ensures
        parsed_view(r) == url_parse(s@),
{
    match url::Url::parse(s) {
        Ok(u) => Some(ParsedUrl {
            scheme: u.scheme().to_string(),
            origin: u.origin().ascii_serialization(),
            last_segment: u.path_segments().and_then(|mut segments| segments.next_back()).map(|x| x.to_string()),
        }),
        Err(_) => None,
    }
}

/// Why a URL was refused.
#[derive(Clone, Copy, PartialEq, Eq, Debug)]
pub enum UrlError {
    /// `url::Url::parse` refused the text.
    InvalidUrl,
    /// The URL has an opaque origin (it serialises as `null`).
    NoHttpOrigin,
    /// The scheme is neither `http` nor `https`.
    NotHttp,
}

/// The origin a page URL sends as `Referer` and `Origin`.
pub open spec fn origin_outcome(p: Option<ParsedUrlView>) -> Result<Seq<char>, UrlError> {
    match p {
        None => Err(UrlError::InvalidUrl),
        Some(u) => if u.origin == "null"@ {
            Err(UrlError::NoHttpOrigin)
        } else {
            Ok(u.origin)
        },
    }
}

pub open spec fn string_result_view<E>(r: Result<String, E>) -> Result<Seq<char>, E> {
    match r {
        Ok(s) => Ok(s@),
        Err(e) => Err(e),
    }
}

/// The origin of a parsed page URL; an opaque origin is refused.
pub fn origin_from_parsed(parsed: Option<ParsedUrl>) -> (r: Result<String, UrlError>)
    ensures
        string_result_view(r) == origin_outcome(parsed_view(parsed)),
{
    match parsed {
        None => Err(UrlError::InvalidUrl),
        Some(u) => {
            let null = String::from_str("null");
            if u.origin == null {
                Err(UrlError::NoHttpOrigin)
            } else {
                Ok(u.origin)
            }
        },
    }
}

/// The scheme and host of a page URL (`scheme://host[:port]`).
pub fn origin_from_url(page_url: &str) -> (r: Result<String, UrlError>)
    ensures
        string_result_view(r) == origin_outcome(url_parse(page_url@)),
{
    origin_from_parsed(parse_url(page_url))
}

pub open spec fn http_scheme_outcome(p: Option<ParsedUrlView>) -> Result<(), UrlError> {
    match p {
        None => Err(UrlError::InvalidUrl),
        Some(u) => if u.scheme == "http"@ || u.scheme == "https"@ {
            Ok(())
        } else {
            Err(UrlError::NotHttp)
        },
    }
}

/// Accepts a parsed URL whose scheme is `http` or `https`.
pub fn check_http_scheme(parsed: Option<ParsedUrl>) -> (r: Result<(), UrlError>)
    ensures
        r == http_scheme_outcome(parsed_view(parsed)),
{
    match parsed {
        None => Err(UrlError::InvalidUrl),
        Some(u) => {
            let http = String::from_str("http");
            let https = String::from_str("https");
            if u.scheme == http || u.scheme == https {
                Ok(())
            } else {
                Err(UrlError::NotHttp)
            }
        },
    }
}

/// Accepts a URL that parses and uses `http` or `https`.
pub fn validate_http_url(value: &str) -> (r: Result<(), UrlError>)
    ensures
        r == http_scheme_outcome(url_parse(value@)),
{
    check_http_scheme(parse_url(value))
}

} // verus!
