//! The failure kinds an administrative operation can surface.

use vstd::prelude::*;
use vstd::string::StrSliceExecFns;
use vstd::string::StringSliceAdditionalSpecFns;

verus! {

/// Every way an operation can fail. `Url` is a malformed endpoint argument;
/// `Transport` carries the rendering of a connection or HTTP-level failure;
/// `Decode` marks a response body outside the expected JSON shape; `Graphql`
/// carries the server's error messages in their original order; and
/// `AlterMismatch` carries an alter response body that was not the single
/// expected literal.
#[derive(Debug, Clone, PartialEq, Eq)]
pub enum AdminError {
    Url,
    Transport(Vec<u8>),
    Decode,
    Graphql(Vec<Vec<u8>>),
    AlterMismatch(Vec<u8>),
}

/// One line per server-side message, each introduced by a dash.
pub open spec fn message_lines(ms: Seq<Vec<u8>>) -> Seq<u8>
    decreases ms.len(),
{
    if ms.len() == 0 {
        Seq::empty()
    } else {
        message_lines(ms.drop_last()) + "\n- ".spec_bytes() + ms.last()@
    }
}

/// What `describe` returns for each failure kind.
pub open spec fn spec_describe(e: AdminError) -> Seq<u8> {
    match e {
        AdminError::Url => "malformed endpoint".spec_bytes(),
        AdminError::Transport(d) => "transport error: ".spec_bytes() + d@,
        AdminError::Decode => "unexpected response shape".spec_bytes(),
        AdminError::Graphql(ms) => "graphql errors:".spec_bytes() + message_lines(ms@),
        AdminError::AlterMismatch(b) => "unexpected response: ".spec_bytes() + b@,
    }
}

impl AdminError {
    /// A human-readable account of the failure, as bytes ready for printing.
    pub fn describe(&self) -> (r: Vec<u8>)
        ensures
            r@ == spec_describe(*self),
    {
        match self {
            AdminError::Url => ("malformed endpoint").as_bytes_vec(),
            AdminError::Transport(d) => {
                let mut out = ("transport error: ").as_bytes_vec();
                crate::bytes::push_all(&mut out, d);
                out
            },
            AdminError::Decode => ("unexpected response shape").as_bytes_vec(),
            AdminError::Graphql(ms) => {
                let mut out = ("graphql errors:").as_bytes_vec();
                let mut i: usize = 0;
                while i < ms.len()
                    invariant
                        i <= ms@.len(),
                        out@ == "graphql errors:".spec_bytes() + message_lines(ms@.take(i as int)),
                    decreases ms@.len() - i,
                {
                    crate::bytes::push_all(&mut out, &("\n- ").as_bytes_vec());
                    crate::bytes::push_all(&mut out, &ms[i]);
                    proof {
                        let t = ms@.take(i as int + 1);
                        assert(t.drop_last() =~= ms@.take(i as int));
                        assert(t.last() == ms@[i as int]);
                        assert(out@ =~= "graphql errors:".spec_bytes() + message_lines(t));
                    }
                    i = i + 1;
                }
                proof {
                    assert(ms@.take(ms@.len() as int) =~= ms@);
                }
                out
            },
            AdminError::AlterMismatch(b) => {
                let mut out = ("unexpected response: ").as_bytes_vec();
                crate::bytes::push_all(&mut out, b);
                out
            },
        }
    }
}

} // verus!
