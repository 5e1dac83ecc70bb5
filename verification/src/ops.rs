//! The five administrative operations. Each one composes the client's
//! exchanges and yields the text a caller prints on success.

use crate::client::Dgraph;
use crate::errors::AdminError;
use crate::json::Json;
use crate::json::is_ws;
use crate::json::obj_get;
use vstd::prelude::*;
use vstd::string::StrSliceExecFns;
use vstd::string::StringSliceAdditionalSpecFns;

verus! {

/// The input with leading whitespace removed.
pub open spec fn trim_front(s: Seq<u8>) -> Seq<u8>
    decreases s.len(),
{
    if s.len() > 0 && is_ws(s[0]) {
        trim_front(s.drop_first())
    } else {
        s
    }
}

/// The input with trailing whitespace removed.
pub open spec fn trim_back(s: Seq<u8>) -> Seq<u8>
    decreases s.len(),
{
    if s.len() > 0 && is_ws(s.last()) {
        trim_back(s.drop_last())
    } else {
        s
    }
}

/// The input with whitespace removed at both ends.
pub open spec fn trimmed(s: Seq<u8>) -> Seq<u8> {
    trim_back(trim_front(s))
}

proof fn lemma_trim_front(s: Seq<u8>, a: int)
    requires
        0 <= a <= s.len(),
        forall|j: int| 0 <= j < a ==> is_ws(s[j]),
        a < s.len() ==> !is_ws(s[a]),
    ensures
        trim_front(s) == s.skip(a),
    decreases s.len(),
{
    if a == 0 {
        assert(s.skip(0) =~= s);
    } else {
        let t = s.drop_first();
        assert(forall|j: int| 0 <= j < a - 1 ==> t[j] == s[j + 1] && is_ws(t[j]));
        lemma_trim_front(t, a - 1);
        assert(t.skip(a - 1) =~= s.skip(a));
    }
}

proof fn lemma_trim_back(s: Seq<u8>, b: int)
    requires
        0 <= b <= s.len(),
        forall|j: int| b <= j < s.len() ==> is_ws(s[j]),
        b > 0 ==> !is_ws(s[b - 1]),
    ensures
        trim_back(s) == s.take(b),
    decreases s.len(),
{
    if b == s.len() {
        assert(s.take(b) =~= s);
    } else {
        let t = s.drop_last();
        assert(forall|j: int| b <= j < t.len() ==> t[j] == s[j] && is_ws(t[j]));
        lemma_trim_back(t, b);
        assert(t.take(b) =~= s.take(b));
    }
}

/// Trims whitespace from both ends.
pub fn trim_bytes(s: &Vec<u8>) -> (r: Vec<u8>)
    ensures
        r@ == trimmed(s@),
{
    let n = s.len();
    let mut a: usize = 0;
    while a < n && (s[a] == 32 || s[a] == 9 || s[a] == 10 || s[a] == 13)
        invariant
            a <= n == s@.len(),
            forall|j: int| 0 <= j < a ==> is_ws(s@[j]),
        decreases n - a,
    {
        a = a + 1;
    }
    proof {
        lemma_trim_front(s@, a as int);
    }
    if a == n {
        proof {
            assert(s@.skip(a as int) =~= Seq::<u8>::empty());
        }
        return Vec::new();
    }
    let mut b: usize = n;
    while b > a && (s[b - 1] == 32 || s[b - 1] == 9 || s[b - 1] == 10 || s[b - 1] == 13)
        invariant
            a <= b <= n == s@.len(),
            forall|j: int| b <= j < s@.len() ==> is_ws(s@[j]),
        decreases b,
    {
        b = b - 1;
    }
    let r = crate::bytes::copy_range(s, a, b);
    proof {
        let f = s@.skip(a as int);
        assert(forall|j: int| b - a <= j < f.len() ==> f[j] == s@[j + a] && is_ws(f[j]));
        assert(b - a > 0 ==> f[b - a - 1] == s@[b as int - 1] && !is_ws(f[b - a - 1]));
        lemma_trim_back(f, b - a as int);
        assert(f.take(b - a as int) =~= s@.subrange(a as int, b as int));
    }
    r
}

/// The schema text under `data.getGQLSchema.schema`, when the chain of
/// members exists and ends in a string.
pub open spec fn schema_field(data: Option<Json>) -> Option<Seq<u8>> {
    match data {
        Some(Json::Obj(fs)) => match obj_get(fs@, "getGQLSchema".spec_bytes()) {
            Some(Json::Obj(gs)) => match obj_get(gs@, "schema".spec_bytes()) {
                Some(Json::Str(t)) => Some(t@),
                _ => None,
            },
            _ => None,
        },
        _ => None,
    }
}

/// What get-schema prints: the trimmed schema text, or `no schema` when the
/// chain is missing, null, not a string, or empty after trimming.
pub open spec fn schema_report(data: Option<Json>) -> Seq<u8> {
    let t = match schema_field(data) {
        Some(t) => trimmed(t),
        None => Seq::empty(),
    };
    if t.len() == 0 {
        "no schema".spec_bytes()
    } else {
        t
    }
}

/// Renders a get-schema data member for printing.
pub fn schema_message(data: Option<Json>) -> (r: Vec<u8>)
    ensures
        r@ == schema_report(data),
{
    let d = match data {
        Some(d) => d,
        None => { return ("no schema").as_bytes_vec() },
    };
    let mut fs = match d {
        Json::Obj(fs) => fs,
        _ => { return ("no schema").as_bytes_vec() },
    };
    let gi = match crate::json::lookup_index(&fs, &("getGQLSchema").as_bytes_vec()) {
        Some(i) => i,
        None => { return ("no schema").as_bytes_vec() },
    };
    let mut gs = match fs.remove(gi).1 {
        Json::Obj(gs) => gs,
        _ => { return ("no schema").as_bytes_vec() },
    };
    let si = match crate::json::lookup_index(&gs, &("schema").as_bytes_vec()) {
        Some(i) => i,
        None => { return ("no schema").as_bytes_vec() },
    };
    let t = match gs.remove(si).1 {
        Json::Str(t) => t,
        _ => { return ("no schema").as_bytes_vec() },
    };
    let cut = trim_bytes(&t);
    if cut.len() == 0 {
        ("no schema").as_bytes_vec()
    } else {
        cut
    }
}

/// Installs or replaces the schema; its text arrives as the one variable of a
/// mutation.
pub struct UpdateSchema {
    pub schema: Vec<u8>,
}

impl UpdateSchema {
    /// Sends the mutation; the returned data is discarded.
    pub fn exec(self, dgraph: &Dgraph) -> (r: Result<Vec<u8>, AdminError>)
        ensures
            r matches Ok(out) ==> out@ == "success\n".spec_bytes(),
            r matches Err(f) ==> f is Transport || f is Decode || (f
                matches AdminError::Graphql(ms) && ms@.len() > 0),
    {
        let vars = crate::gql::schema_variables(&self.schema);
        let q = (
        "mutation updateGQLSchema($schema: String!) { updateGQLSchema(input: { set: { schema: $schema } }) { gqlSchema { id } } }"
        ).as_bytes_vec();
        match dgraph.query(&("admin").as_bytes_vec(), &q, &vars) {
            Ok(_) => Ok(("success\n").as_bytes_vec()),
            Err(e) => Err(e),
        }
    }
}

/// Fetches the current schema.
pub struct GetSchema {}

impl GetSchema {
    /// Queries the schema and renders it, or `no schema` when there is none.
    /// The output is always the report of some data member followed by a line
    /// feed; which one is fixed, one call down, by the exact contracts of
    /// `Dgraph::query`'s response handling and `schema_message`.
    pub fn exec(self, dgraph: &Dgraph) -> (r: Result<Vec<u8>, AdminError>)
        ensures
            r matches Err(f) ==> f is Transport || f is Decode || (f
                matches AdminError::Graphql(ms) && ms@.len() > 0),
            r matches Ok(out) ==> exists|data: Option<Json>|
                out@ == schema_report(data).push(10),
    {
        let q = ("query getGQLSchema { getGQLSchema { schema } }").as_bytes_vec();
        match dgraph.query(&("admin").as_bytes_vec(), &q, &("null").as_bytes_vec()) {
            Ok(data) => {
                let ghost data0 = data;
                let mut out = schema_message(data);
                out.push(10);
                proof {
                    assert(out@ =~= schema_report(data0).push(10));
                }
                Ok(out)
            },
            Err(e) => Err(e),
        }
    }
}

/// Drops all data and the schema.
pub struct DropAll {}

impl DropAll {
    /// One alter exchange with the drop-all directive.
    pub fn exec(self, dgraph: &Dgraph) -> (r: Result<Vec<u8>, AdminError>)
        ensures
            r matches Ok(out) ==> out@ == "success\n".spec_bytes(),
            r matches Err(f) ==> f is Transport || f is AlterMismatch,
    {
        match dgraph.alter(&("{\"drop_all\": true}").as_bytes_vec()) {
            Ok(_) => Ok(("success\n").as_bytes_vec()),
            Err(e) => Err(e),
        }
    }
}

/// Drops all data but keeps the schema.
pub struct DropData {}

impl DropData {
    /// One alter exchange with the drop-data directive.
    pub fn exec(self, dgraph: &Dgraph) -> (r: Result<Vec<u8>, AdminError>)
        ensures
            r matches Ok(out) ==> out@ == "success\n".spec_bytes(),
            r matches Err(f) ==> f is Transport || f is AlterMismatch,
    {
        match dgraph.alter(&("{\"drop_op\": \"DATA\"}").as_bytes_vec()) {
            Ok(_) => Ok(("success\n").as_bytes_vec()),
            Err(e) => Err(e),
        }
    }
}

/// Reports the status of every cluster node.
pub struct GetHealth {}

impl GetHealth {
    /// One GET against the health endpoint, decoded and formatted per node.
    /// Whatever body came back, the output is the report of some record list;
    /// which one is fixed, one call down, by the exact contracts of
    /// `json_parse`, `parse_health` and `health_lines` on that body.
    pub fn exec(self, dgraph: &Dgraph) -> (r: Result<Vec<u8>, AdminError>)
        ensures
            r matches Err(f) ==> f is Transport || f is Decode,
            r matches Ok(out) ==> exists|hs: Seq<crate::health::HealthResponse>|
                out@ == crate::health::health_text(hs),
    {
        let plan = dgraph.get(&("health").as_bytes_vec());
        match crate::transport::http_get(&plan.url, &plan.header) {
            Err(d) => Err(AdminError::Transport(d)),
            Ok(body) => match crate::json::json_parse(&body) {
                None => Err(AdminError::Decode),
                Some(j) => match crate::health::parse_health(j) {
                    Ok(hs) => {
                        let out = crate::health::health_lines(&hs);
                        proof {
                            assert(out@ == crate::health::health_text(hs@));
                        }
                        Ok(out)
                    },
                    Err(e) => Err(e),
                },
            },
        }
    }
}

/// The operation selected for this invocation.
pub enum SubCommand {
    UpdateSchema(UpdateSchema),
    GetSchema(GetSchema),
    DropAll(DropAll),
    DropData(DropData),
    GetHealth(GetHealth),
}

impl SubCommand {
    /// Runs the selected operation against the client and yields the text to
    /// print on success.
    pub fn exec(self, dgraph: &Dgraph) -> (r: Result<Vec<u8>, AdminError>)
        ensures
            r matches Err(f) ==> !(f is Url),
            self is UpdateSchema || self is DropAll || self is DropData ==> (r matches Ok(out)
                ==> out@ == "success\n".spec_bytes()),
            self is DropAll || self is DropData ==> (r matches Err(f) ==> f is Transport
                || f is AlterMismatch),
            self is UpdateSchema || self is GetSchema ==> (r matches Err(f) ==> f is Transport
                || f is Decode || f is Graphql),
            self is GetHealth ==> (r matches Err(f) ==> f is Transport || f is Decode),
    {
        match self {
            SubCommand::UpdateSchema(x) => x.exec(dgraph),
            SubCommand::GetSchema(x) => x.exec(dgraph),
            SubCommand::DropAll(x) => x.exec(dgraph),
            SubCommand::DropData(x) => x.exec(dgraph),
            SubCommand::GetHealth(x) => x.exec(dgraph),
        }
    }
}

} // verus!
