//! Outbound request plans and the HTTP calls they turn into.
//!
//! A plan is plain data: method, full target URL, and at most one custom
//! header. Building a plan is verified; only the actual network call is
//! trusted.

use vstd::prelude::*;

verus! {

/// The two HTTP methods the administrative surface needs.
#[derive(Debug, Clone, Copy, PartialEq, Eq)]
pub enum Method {
    Get,
    Post,
}

/// One custom header, already split into name and value.
pub struct HeaderPair {
    pub name: Vec<u8>,
    pub value: Vec<u8>,
}

/// An outbound request before it is sent.
pub struct RequestPlan {
    pub method: Method,
    pub url: Vec<u8>,
    pub header: Option<HeaderPair>,
}

/// Index of the first colon, or the length when there is none.
pub open spec fn first_colon(s: Seq<u8>) -> int
    decreases s.len(),
{
    if s.len() == 0 {
        0
    } else if s[0] == 58 {
        0
    } else {
        1 + first_colon(s.drop_first())
    }
}

/// The header an auth argument denotes: the text around the first colon, or
/// nothing when no colon occurs.
pub open spec fn auth_pair(s: Seq<u8>) -> Option<(Seq<u8>, Seq<u8>)> {
    let i = first_colon(s);
    if i < s.len() {
        Some((s.take(i), s.skip(i + 1)))
    } else {
        None
    }
}

proof fn lemma_first_colon(s: Seq<u8>, i: int)
    requires
        0 <= i <= s.len(),
        forall|j: int| 0 <= j < i ==> s[j] != 58,
        i < s.len() ==> s[i] == 58,
    ensures
        first_colon(s) == i,
    decreases s.len(),
{
    if i == 0 {
        if s.len() > 0 {
            assert(s[0] == 58);
        }
    } else {
        assert(s[0] != 58);
        let t = s.drop_first();
        assert(forall|j: int| 0 <= j < i - 1 ==> t[j] == s[j + 1] && t[j] != 58);
        lemma_first_colon(t, i - 1);
    }
}

/// Splits an auth argument at its first colon.
pub fn split_once_colon(s: &Vec<u8>) -> (r: Option<(Vec<u8>, Vec<u8>)>)
    ensures
        match r {
            Some(kv) => auth_pair(s@) == Some((kv.0@, kv.1@)),
            None => auth_pair(s@) is None,
        },
{
    let n = s.len();
    let mut i: usize = 0;
    while i < n && s[i] != 58
        invariant
            i <= n == s@.len(),
            forall|j: int| 0 <= j < i ==> s@[j] != 58,
        decreases n - i,
    {
        i = i + 1;
    }
    proof {
        lemma_first_colon(s@, i as int);
    }
    if i < n {
        let key = crate::bytes::copy_range(s, 0, i);
        let value = crate::bytes::copy_range(s, i + 1, n);
        Some((key, value))
    } else {
        None
    }
}

/// Relies on `ureq::post`, `Request::set`, `Request::send_bytes` and
/// `Response::into_string`: posts `body` to `url` under the given content
/// type, with at most the one given custom header. On success the response
/// body comes back, up to the ten-megabyte cap `into_string` enforces; past
/// that cap, and on any connection or HTTP-level failure, the rendering of
/// the error is returned instead.
#[verifier::external_body]
pub(crate) fn http_post(
    url: &Vec<u8>,
    header: &Option<HeaderPair>,
    content_type: &Vec<u8>,
    body: &Vec<u8>,
) -> (r: Result<Vec<u8>, Vec<u8>>) {
    let mut req = ureq::post(&String::from_utf8_lossy(url));
    req = req.set("Content-Type", &String::from_utf8_lossy(content_type));
    if let Some(h) = header {
        req = req.set(&String::from_utf8_lossy(&h.name), &String::from_utf8_lossy(&h.value));
    }
    match req.send_bytes(body) {
        Ok(resp) => match resp.into_string() {
            Ok(text) => Ok(text.into_bytes()),
            Err(e) => Err(format!("{}", e).into_bytes()),
        },
        Err(e) => Err(format!("{}", e).into_bytes()),
    }
}

/// Relies on `ureq::get`, `Request::set`, `Request::call` and
/// `Response::into_string`: one GET against `url` with at most the one given
/// header. The response body comes back up to the ten-megabyte cap
/// `into_string` enforces; past it, and on any connection or HTTP-level
/// failure, the rendering of the error is returned instead.
#[verifier::external_body]
pub(crate) fn http_get(url: &Vec<u8>, header: &Option<HeaderPair>) -> (r: Result<
    Vec<u8>,
    Vec<u8>,
>) {
    let mut req = ureq::get(&String::from_utf8_lossy(url));
    if let Some(h) = header {
        req = req.set(&String::from_utf8_lossy(&h.name), &String::from_utf8_lossy(&h.value));
    }
    match req.call() {
        Ok(resp) => match resp.into_string() {
            Ok(text) => Ok(text.into_bytes()),
            Err(e) => Err(format!("{}", e).into_bytes()),
        },
        Err(e) => Err(format!("{}", e).into_bytes()),
    }
}

} // verus!
