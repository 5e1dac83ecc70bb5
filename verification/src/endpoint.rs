//! Turning a user-supplied endpoint string into a canonical base URL.
//!
//! A bare `host:port` has no scheme; parsing it as a URL misreads the host as
//! a scheme, so any parse whose scheme is neither `http` nor `https` (and any
//! failed parse) is retried with `http://` prepended. On success the path,
//! query and fragment are cleared, so a URL ending in `/graphql` or any other
//! path is truncated to its authority. One consequence of serializing through
//! the `url` crate: a port that is the scheme's default (80 for `http`, 443
//! for `https`) is elided from the base, so `https://example.com:443` comes
//! out as `https://example.com/`.

use crate::errors::AdminError;
use vstd::prelude::*;
use vstd::string::StrSliceExecFns;
use vstd::string::StringSliceAdditionalSpecFns;

verus! {

/// Whether the `url` crate parses this text.
pub uninterp spec fn url_parses(raw: Seq<u8>) -> bool;

/// The scheme of the parsed URL, as the `url` crate reports it.
pub uninterp spec fn url_scheme(raw: Seq<u8>) -> Seq<u8>;

/// The serialization of the parsed URL after its path is cleared.
pub uninterp spec fn url_base(raw: Seq<u8>) -> Seq<u8>;

/// What the normalizer reads out of a parsed URL.
pub struct UrlParts {
    pub scheme: Vec<u8>,
    pub base: Vec<u8>,
}

/// Relies on `url::Url::parse`, `Url::scheme`, `Url::set_path`,
/// `Url::set_query`, `Url::set_fragment` and `Url::to_string`: parsing is a
/// function of the input text alone; `scheme` is the parsed scheme and
/// `base` the serialization after path, query and fragment are cleared.
#[verifier::external_body]
fn url_probe(raw: &Vec<u8>) -> (r: Option<UrlParts>)
    ensures
        r is Some <==> url_parses(raw@),
        r matches Some(p) ==> p.scheme@ == url_scheme(raw@) && p.base@ == url_base(raw@),
{
    let text = String::from_utf8_lossy(raw);
    match url::Url::parse(&text) {
        Ok(mut u) => {
            let scheme = u.scheme().as_bytes().to_vec();
            u.set_path("");
            u.set_query(None);
            u.set_fragment(None);
            Some(UrlParts { scheme, base: u.to_string().into_bytes() })
        },
        Err(_) => None,
    }
}

/// The raw text with `http://` prepended.
pub open spec fn http_prefixed(raw: Seq<u8>) -> Seq<u8> {
    "http://".spec_bytes() + raw
}

/// The raw text parses and its scheme is `http` or `https`.
pub open spec fn scheme_is_web(raw: Seq<u8>) -> bool {
    url_parses(raw) && (url_scheme(raw) == "http".spec_bytes() || url_scheme(raw)
        == "https".spec_bytes())
}

/// The canonical base a given endpoint argument normalizes to, if any.
pub open spec fn normalized(raw: Seq<u8>) -> Option<Seq<u8>> {
    if scheme_is_web(raw) {
        Some(url_base(raw))
    } else if url_parses(http_prefixed(raw)) {
        Some(url_base(http_prefixed(raw)))
    } else {
        None
    }
}

/// Normalizes a user-supplied endpoint: scheme inferred, path cleared.
pub fn normalize(raw: &Vec<u8>) -> (r: Result<Vec<u8>, AdminError>)
    ensures
        match r {
            Ok(b) => normalized(raw@) == Some(b@),
            Err(e) => normalized(raw@) is None && e is Url,
        },
{
    if let Some(p) = url_probe(raw) {
        let web = {
            let http = ("http").as_bytes_vec();
            let https = ("https").as_bytes_vec();
            p.scheme == http || p.scheme == https
        };
        if web {
            proof {
                assert(p.scheme@ =~= "http".spec_bytes() || p.scheme@ =~= "https".spec_bytes());
            }
            return Ok(p.base);
        }
        proof {
            assert(!(p.scheme@ =~= "http".spec_bytes()) && !(p.scheme@ =~= "https".spec_bytes()));
        }
    }
    let mut prefixed = ("http://").as_bytes_vec();
    crate::bytes::push_all(&mut prefixed, raw);
    match url_probe(&prefixed) {
        Some(p) => Ok(p.base),
        None => Err(AdminError::Url),
    }
}

} // verus!
