//! The address of a request: shorthands for the local host, and a default
//! scheme for an address that has none.

use vstd::prelude::*;
use vstd::string::*;
use crate::errors::Error;
use crate::text::{chars_of, string_of};

verus! {

/// What parsing `text` as an absolute URL gives: the URL in its normal
/// form, or `None` where `text` is no absolute URL.
pub uninterp spec fn url_parsed(text: Seq<char>) -> Option<Seq<char>>;

/// Parses `text` as an absolute URL and gives the URL back as text.
///
/// Trusted: `reqwest::Url::parse`, and `Url::into_string` on its result. The
/// contract claims only that the outcome is a function of the text, which
/// it names `url_parsed`.
#[verifier::external_body]
pub(crate) fn parse_url(text: &str) -> (r: Result<String, reqwest::UrlError>)
    ensures
        match r {
            Ok(url) => url_parsed(text@) == Some(url@),
            Err(_) => url_parsed(text@) is None,
        },
{
    reqwest::Url::parse(text).map(|url| url.into_string())
}

/// The address that a shorthand for the local host stands for: `:/path`
/// is `http://localhost/path`, and `:` with anything else behind it, a port
/// for one, is `http://localhost` followed by all of it.
pub open spec fn shorthand(s: Seq<char>) -> Option<Seq<char>> {
    if s.len() >= 2 && s[0] == ':' && s[1] == '/' {
        Some("http://localhost"@ + s.skip(1))
    } else if s.len() >= 1 && s[0] == ':' {
        Some("http://localhost"@ + s)
    } else {
        None
    }
}

/// `s` behind the default scheme: `https` where `secure` is set, else `http`.
pub open spec fn with_scheme(secure: bool, s: Seq<char>) -> Seq<char> {
    if secure {
        "https://"@ + s
    } else {
        "http://"@ + s
    }
}

/// The texts to parse for the address `s`: the first, and the one to fall
/// back to where the first is no URL. A shorthand for the local host has no
/// fallback; any other address falls back to itself behind the default
/// scheme.
pub open spec fn candidates_of(secure: bool, s: Seq<char>) -> (Seq<char>, Option<Seq<char>>) {
    match shorthand(s) {
        Some(full) => (full, None),
        None => (s, Some(with_scheme(secure, s))),
    }
}

/// The URL that the address `s` stands for, or `None` where it stands for
/// none.
pub open spec fn resolved(secure: bool, s: Seq<char>) -> Option<Seq<char>> {
    let (first, fallback) = candidates_of(secure, s);
    match url_parsed(first) {
        Some(url) => Some(url),
        None => match fallback {
            Some(second) => url_parsed(second),
            None => None,
        },
    }
}

/// The texts to parse for the address `s`: the first, and the one to fall
/// back to.
pub fn candidates(secure: bool, s: &str) -> (r: (String, Option<String>))
    ensures
        r.0@ == candidates_of(secure, s@).0,
        match candidates_of(secure, s@).1 {
            Some(second) => r.1 matches Some(x) && x@ == second,
            None => r.1 is None,
        },
{
    let v = chars_of(s);
    let n: usize = v.len();
    if n >= 2 && v[0] == ':' && v[1] == '/' {
        let mut full = String::from_str("http://localhost");
        let rest = string_of(&v, 1, n);
        full.append(rest.as_str());
        assert(v@.subrange(1, n as int) =~= s@.skip(1));
        (full, None)
    } else if n >= 1 && v[0] == ':' {
        let mut full = String::from_str("http://localhost");
        full.append(s);
        (full, None)
    } else {
        let mut second = if secure {
            String::from_str("https://")
        } else {
            String::from_str("http://")
        };
        second.append(s);
        (s.to_owned(), Some(second))
    }
}

/// The URL that the address `s` stands for.
///
/// A shorthand for the local host is written out and parsed. Any other
/// address is parsed as it is, and where that fails, behind the default
/// scheme. The error is that of the last attempt.
pub fn parse(secure: bool, s: &str) -> (r: Result<String, Error>)
    ensures
        match resolved(secure, s@) {
            Some(url) => r matches Ok(x) && x@ == url,
            None => r matches Err(e) && e is UrlParseError,
        },
{
    let (first, fallback) = candidates(secure, s);
    match parse_url(first.as_str()) {
        Ok(url) => Ok(url),
        Err(e) => match fallback {
            Some(second) => match parse_url(second.as_str()) {
                Ok(url) => Ok(url),
                Err(e2) => Err(Error::UrlParseError(e2)),
            },
            None => Err(Error::UrlParseError(e)),
        },
    }
}

} // verus!
