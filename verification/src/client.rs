//! The thin client: a canonical base URL, an optional auth header, and the
//! two exchanges every operation goes through.

use crate::errors::AdminError;
use crate::json::Json;
use crate::transport::HeaderPair;
use crate::transport::Method;
use crate::transport::RequestPlan;
use crate::transport::auth_pair;
use vstd::prelude::*;
use vstd::string::StrSliceExecFns;
use vstd::string::StringSliceAdditionalSpecFns;

verus! {

/// A configured client. Immutable once constructed.
pub struct Dgraph {
    pub base_url: Vec<u8>,
    pub auth_header: Option<Vec<u8>>,
}

/// The header a configured auth argument denotes: the text around its first
/// colon, or nothing when the argument is absent or has no colon.
pub open spec fn configured_header(auth: Option<Vec<u8>>) -> Option<(Seq<u8>, Seq<u8>)> {
    match auth {
        Some(a) => auth_pair(a@),
        None => None,
    }
}

/// The exact response body the alter endpoint answers with on success.
pub open spec fn alter_success() -> Seq<u8> {
    "{\"data\":{\"code\":\"Success\",\"message\":\"Done\"}}".spec_bytes()
}

/// Decides an alter response: success is byte-for-byte equality with the one
/// expected literal; any other body fails, carrying that body.
pub fn alter_outcome(body: Vec<u8>) -> (r: Result<(), AdminError>)
    ensures
        body@ == alter_success() ==> r is Ok,
        body@ != alter_success() ==> (r matches Err(f) && f matches AdminError::AlterMismatch(b)
            && b@ == body@),
{
    let expected = ("{\"data\":{\"code\":\"Success\",\"message\":\"Done\"}}").as_bytes_vec();
    if body == expected {
        proof {
            assert(body@ =~= expected@);
        }
        Ok(())
    } else {
        proof {
            assert(!(body@ =~= expected@));
        }
        Err(AdminError::AlterMismatch(body))
    }
}

impl Dgraph {
    /// Builds a client for the given endpoint argument; the URL is normalized
    /// and the auth argument kept as given.
    pub fn new(url: &Vec<u8>, auth_header: Option<Vec<u8>>) -> (r: Result<Dgraph, AdminError>)
        ensures
            match r {
                Ok(d) => crate::endpoint::normalized(url@) == Some(d.base_url@) && d.auth_header
                    == auth_header,
                Err(e) => crate::endpoint::normalized(url@) is None && e is Url,
            },
    {
        match crate::endpoint::normalize(url) {
            Ok(base_url) => Ok(Dgraph { base_url, auth_header }),
            Err(e) => Err(e),
        }
    }

    /// Attaches the configured auth header, when the auth argument holds a
    /// colon; otherwise the plan's headers stay unchanged.
    pub fn add_auth_header(&self, req: RequestPlan) -> (r: RequestPlan)
        ensures
            r.method == req.method,
            r.url@ == req.url@,
            match configured_header(self.auth_header) {
                Some(kv) => r.header matches Some(h) && h.name@ == kv.0 && h.value@ == kv.1,
                None => r.header == req.header,
            },
    {
        if let Some(a) = &self.auth_header {
            if let Some((name, value)) = crate::transport::split_once_colon(a) {
                return RequestPlan {
                    header: Some(HeaderPair { name, value }),
                    ..req
                };
            }
        }
        req
    }

    /// A POST plan against `base_url + endpoint`, auth header applied.
    pub fn post(&self, endpoint: &Vec<u8>) -> (r: RequestPlan)
        ensures
            r.method is Post,
            r.url@ == self.base_url@ + endpoint@,
            match configured_header(self.auth_header) {
                Some(kv) => r.header matches Some(h) && h.name@ == kv.0 && h.value@ == kv.1,
                None => r.header is None,
            },
    {
        let mut url = crate::bytes::clone_bytes(&self.base_url);
        crate::bytes::push_all(&mut url, endpoint);
        self.add_auth_header(RequestPlan { method: Method::Post, url, header: None })
    }

    /// A GET plan against `base_url + endpoint`, auth header applied.
    pub fn get(&self, endpoint: &Vec<u8>) -> (r: RequestPlan)
        ensures
            r.method is Get,
            r.url@ == self.base_url@ + endpoint@,
            match configured_header(self.auth_header) {
                Some(kv) => r.header matches Some(h) && h.name@ == kv.0 && h.value@ == kv.1,
                None => r.header is None,
            },
    {
        let mut url = crate::bytes::clone_bytes(&self.base_url);
        crate::bytes::push_all(&mut url, endpoint);
        self.add_auth_header(RequestPlan { method: Method::Get, url, header: None })
    }

    /// One GraphQL exchange: serializes the envelope, posts it, and decides
    /// the response envelope. Whatever the server answered, a failure is a
    /// transport fault, a decode fault, or the server's own non-empty error
    /// list; success hands out the data member, `null` counting as absent.
    pub fn query(&self, endpoint: &Vec<u8>, query: &Vec<u8>, variables_json: &Vec<u8>) -> (r:
        Result<Option<Json>, AdminError>)
        ensures
            r matches Err(f) ==> f is Transport || f is Decode || (f matches AdminError::Graphql(
                ms,
            ) && ms@.len() > 0),
    {
        let body = crate::gql::gql_request_body(query, variables_json);
        let plan = self.post(endpoint);
        let content_type = ("application/json").as_bytes_vec();
        match crate::transport::http_post(&plan.url, &plan.header, &content_type, &body) {
            Err(d) => Err(AdminError::Transport(d)),
            Ok(resp) => crate::gql::gql_response(&resp),
        }
    }

    /// One alter exchange: posts the raw payload and accepts only the one
    /// expected response literal. Whatever came back, a failure is a
    /// transport fault or carries the unexpected body.
    pub fn alter(&self, payload: &Vec<u8>) -> (r: Result<(), AdminError>)
        ensures
            r matches Err(f) ==> f is Transport || f is AlterMismatch,
    {
        let plan = self.post(&("alter").as_bytes_vec());
        let content_type = ("text/plain; charset=utf-8").as_bytes_vec();
        match crate::transport::http_post(&plan.url, &plan.header, &content_type, payload) {
            Err(d) => Err(AdminError::Transport(d)),
            Ok(resp) => alter_outcome(resp),
        }
    }
}

} // verus!
