//! The library's calls into outside crates, each behind one trusted wrapper
//! whose contract Verus believes: base64 credential encoding, the random
//! padding count, percent-decoding of request paths, and URI parsing.

use vstd::prelude::*;
use vstd::string::StringSliceAdditionalSpecFns;

verus! {

/// What base64's STANDARD engine (RFC 4648 alphabet, padded) returns for a
/// byte sequence. The encoding depends on the bytes alone.
pub uninterp spec fn base64_std_of(bytes: Seq<u8>) -> Seq<char>;

/// Relies on base64's `Engine::encode` with the `STANDARD` engine: the
/// standard-alphabet, padded encoding of the argument's bytes.
#[verifier::external_body]
pub fn base64_encode(s: &str) -> (r: String)
    ensures
        r@ == base64_std_of(s.spec_bytes()),
{
    <base64::engine::GeneralPurpose as base64::Engine>::encode(
        &base64::engine::general_purpose::STANDARD,
        s.as_bytes(),
    )
}

/// Relies on rand's `random_range`: a sample from the half-open range, which
/// panics only on an empty range.
#[verifier::external_body]
pub fn random_in_range(low: usize, high: usize) -> (r: usize)
    requires
        low < high,
    ensures
        low <= r < high,
{
    rand::random_range(low..high)
}

/// What percent-encoding's `percent_decode_str(..).decode_utf8()` returns:
/// `None` where the decoded bytes are not UTF-8, else the decoded text. The
/// result depends on the characters alone.
pub uninterp spec fn percent_decode_of(s: Seq<char>) -> Option<Seq<char>>;

/// Relies on percent-encoding's `percent_decode_str` and
/// `PercentDecode::decode_utf8`: replaces each %xx escape by its byte and
/// re-reads the bytes as UTF-8.
#[verifier::external_body]
pub fn percent_decode(s: &str) -> (r: Option<String>)
    ensures
        match r {
            Some(t) => percent_decode_of(s@) == Some(t@),
            None => percent_decode_of(s@) is None,
        },
{
    percent_encoding::percent_decode_str(s).decode_utf8().ok().map(|c| c.into_owned())
}

/// The components of a parsed URI, as plain values.
pub struct UriParts {
    pub scheme: Option<String>,
    pub authority: Option<String>,
    pub host: Option<String>,
    pub port: Option<u16>,
    pub path: String,
    pub query: Option<String>,
}

/// The mathematical value of [`UriParts`].
pub struct UriPartsV {
    pub scheme: Option<Seq<char>>,
    pub authority: Option<Seq<char>>,
    pub host: Option<Seq<char>>,
    pub port: Option<u16>,
    pub path: Seq<char>,
    pub query: Option<Seq<char>>,
}

impl View for UriParts {
    type V = UriPartsV;

    open spec fn view(&self) -> UriPartsV {
        UriPartsV {
            scheme: match self.scheme {
                Some(s) => Some(s@),
                None => None,
            },
            authority: match self.authority {
                Some(s) => Some(s@),
                None => None,
            },
            host: match self.host {
                Some(s) => Some(s@),
                None => None,
            },
            port: self.port,
            path: self.path@,
            query: match self.query {
                Some(s) => Some(s@),
                None => None,
            },
        }
    }
}

/// What http's `Uri` parser makes of a string: `None` where it is not a
/// valid URI reference, else the URI's components. The result depends on the
/// characters alone.
pub uninterp spec fn uri_parse_of(s: Seq<char>) -> Option<UriPartsV>;

/// Relies on http's `Uri::from_str` and its component accessors
/// (`scheme_str`, `authority`, `host`, `port_u16`, `path`, `query`). In that
/// crate `host()` is `authority().map(|a| a.host())`, so the host is present
/// exactly where the authority is.
#[verifier::external_body]
pub fn parse_uri(s: &str) -> (r: Option<UriParts>)
    ensures
        match r {
            Some(parts) => uri_parse_of(s@) == Some(parts@),
            None => uri_parse_of(s@) is None,
        },
        match r {
            Some(parts) => parts.host is Some <==> parts.authority is Some,
            None => true,
        },
{
    match s.parse::<http::Uri>() {
        Err(_) => None,
        Ok(u) => Some(UriParts {
            scheme: u.scheme_str().map(|x| x.to_string()),
            authority: u.authority().map(|a| a.as_str().to_string()),
            host: u.host().map(|h| h.to_string()),
            port: u.port_u16(),
            path: u.path().to_string(),
            query: u.query().map(|q| q.to_string()),
        }),
    }
}

} // verus!
