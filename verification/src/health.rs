//! Cluster health: decoding the health endpoint's record array and formatting
//! one report line per node.

use crate::errors::AdminError;
use crate::json::Json;
use crate::json::is_digit;
use crate::json::obj_get;
use vstd::prelude::*;
use vstd::string::StrSliceExecFns;
use vstd::string::StringSliceAdditionalSpecFns;

verus! {

/// One node's report. Only the fields this tool consumes are modeled; unknown
/// members of the wire record are ignored.
#[derive(Debug, Clone, PartialEq, Eq)]
pub struct HealthResponse {
    pub address: Vec<u8>,
    pub status: Vec<u8>,
    pub uptime: u64,
}

/// The value of a run of decimal digits, most significant first.
pub open spec fn dec_value(s: Seq<u8>) -> int
    decreases s.len(),
{
    if s.len() == 0 {
        0
    } else {
        dec_value(s.drop_last()) * 10 + s.last() - 48
    }
}

/// True of a non-empty, all-digit run.
pub open spec fn all_digits(s: Seq<u8>) -> bool {
    s.len() > 0 && forall|i: int| 0 <= i < s.len() ==> is_digit(s[i])
}

/// The unsigned value a number literal denotes, when it is a plain decimal
/// integer that fits; fractions, exponents, signs and overflow all miss.
pub open spec fn u64_of(s: Seq<u8>) -> Option<u64> {
    if all_digits(s) && dec_value(s) <= u64::MAX {
        Some(dec_value(s) as u64)
    } else {
        None
    }
}

proof fn lemma_dec_monotone(s: Seq<u8>, k: int)
    requires
        0 <= k <= s.len(),
        forall|i: int| 0 <= i < s.len() ==> is_digit(s[i]),
    ensures
        0 <= dec_value(s.take(k)) <= dec_value(s),
    decreases s.len(),
{
    if s.len() == 0 {
        assert(s.take(k) =~= s);
    } else if k == s.len() {
        assert(s.take(k) =~= s);
        let d = s.drop_last();
        assert(forall|i: int| 0 <= i < d.len() ==> d[i] == s[i]);
        lemma_dec_monotone(d, d.len() as int);
        assert(d.take(d.len() as int) =~= d);
    } else {
        let d = s.drop_last();
        assert(forall|i: int| 0 <= i < d.len() ==> d[i] == s[i]);
        assert(s.take(k) =~= d.take(k));
        lemma_dec_monotone(d, k);
    }
}

/// Reads a decimal u64 out of a number literal's text.
pub fn parse_u64(s: &Vec<u8>) -> (r: Option<u64>)
    ensures
        r == u64_of(s@),
{
    let n = s.len();
    if n == 0 {
        return None;
    }
    let mut i: usize = 0;
    while i < n
        invariant
            i <= n == s@.len(),
            forall|j: int| 0 <= j < i ==> is_digit(s@[j]),
        decreases n - i,
    {
        let b = s[i];
        if !(48 <= b && b <= 57) {
            return None;
        }
        i = i + 1;
    }
    let mut val: u64 = 0;
    let mut k: usize = 0;
    proof {
        assert(s@.take(0) =~= Seq::<u8>::empty());
    }
    while k < n
        invariant
            k <= n == s@.len(),
            forall|j: int| 0 <= j < s@.len() ==> is_digit(s@[j]),
            val == dec_value(s@.take(k as int)),
        decreases n - k,
    {
        let b = s[k];
        proof {
            let t = s@.take(k as int + 1);
            assert(t.drop_last() =~= s@.take(k as int));
            assert(t.last() == s@[k as int]);
        }
        let stepped = match val.checked_mul(10) {
            Some(v) => v.checked_add((b - 48) as u64),
            None => None,
        };
        match stepped {
            Some(v) => {
                val = v;
            },
            None => {
                proof {
                    lemma_dec_monotone(s@, k as int + 1);
                    assert(dec_value(s@.take(k as int + 1)) > u64::MAX);
                }
                return None;
            },
        }
        k = k + 1;
    }
    proof {
        assert(s@.take(s@.len() as int) =~= s@);
    }
    Some(val)
}

/// Relies on `humantime::format_duration`: the rendering of a whole-second
/// duration is a function of the seconds value alone.
#[verifier::external_body]
fn format_uptime(secs: u64) -> (r: Vec<u8>)
    ensures
        r@ == duration_text(secs),
{
    humantime::format_duration(std::time::Duration::new(secs, 0)).to_string().into_bytes()
}

/// How `humantime` renders a whole-second duration.
pub uninterp spec fn duration_text(secs: u64) -> Seq<u8>;

/// The fields of one wire record, when it has the expected shape: an object
/// with strings under `address` and `status` and an unsigned integer under
/// `uptime`. Other members are ignored.
pub open spec fn record_of(e: Json) -> Option<(Seq<u8>, Seq<u8>, u64)> {
    match e {
        Json::Obj(fs) => {
            match (
                obj_get(fs@, "address".spec_bytes()),
                obj_get(fs@, "status".spec_bytes()),
                obj_get(fs@, "uptime".spec_bytes()),
            ) {
                (Some(Json::Str(a)), Some(Json::Str(st)), Some(Json::Num(n))) => match u64_of(
                    n@,
                ) {
                    Some(u) => Some((a@, st@, u)),
                    None => None,
                },
                _ => None,
            }
        },
        _ => None,
    }
}

/// All records of the array, in order; nothing when any element misses.
pub open spec fn records_of(es: Seq<Json>) -> Option<Seq<(Seq<u8>, Seq<u8>, u64)>>
    decreases es.len(),
{
    if es.len() == 0 {
        Some(Seq::empty())
    } else {
        match (records_of(es.drop_last()), record_of(es.last())) {
            (Some(rs), Some(r)) => Some(rs.push(r)),
            _ => None,
        }
    }
}

proof fn lemma_records_none(es: Seq<Json>, i: int)
    requires
        0 <= i < es.len(),
        record_of(es[i]) is None,
    ensures
        records_of(es) is None,
    decreases es.len(),
{
    if i < es.len() - 1 {
        lemma_records_none(es.drop_last(), i);
    }
}

/// The view of a decoded record list.
pub open spec fn records_view(hs: Seq<HealthResponse>) -> Seq<(Seq<u8>, Seq<u8>, u64)> {
    hs.map_values(|h: HealthResponse| (h.address@, h.status@, h.uptime))
}

/// Decodes the health endpoint's response: a JSON array of records.
pub fn parse_health(j: Json) -> (r: Result<Vec<HealthResponse>, AdminError>)
    ensures
        match j {
            Json::Arr(es) => match records_of(es@) {
                Some(rs) => r matches Ok(v) && records_view(v@) == rs,
                None => r matches Err(f) && f is Decode,
            },
            _ => r matches Err(f) && f is Decode,
        },
{
    let es = match j {
        Json::Arr(es) => es,
        _ => { return Err(AdminError::Decode); },
    };
    let mut out: Vec<HealthResponse> = Vec::new();
    let mut i: usize = 0;
    while i < es.len()
        invariant
            i <= es@.len(),
            out@.len() == i,
            records_of(es@.take(i as int)) == Some(records_view(out@)),
            j matches Json::Arr(ev) && ev@ == es@,
        decreases es@.len() - i,
    {
        let rec = match &es[i] {
            Json::Obj(efs) => {
                let a = match crate::json::lookup(efs, &("address").as_bytes_vec()) {
                    Some(Json::Str(a)) => crate::bytes::clone_bytes(a),
                    _ => {
                        proof {
                            lemma_records_none(es@, i as int);
                        }
                        return Err(AdminError::Decode);
                    },
                };
                let st = match crate::json::lookup(efs, &("status").as_bytes_vec()) {
                    Some(Json::Str(st)) => crate::bytes::clone_bytes(st),
                    _ => {
                        proof {
                            lemma_records_none(es@, i as int);
                        }
                        return Err(AdminError::Decode);
                    },
                };
                let up = match crate::json::lookup(efs, &("uptime").as_bytes_vec()) {
                    Some(Json::Num(n)) => match parse_u64(n) {
                        Some(u) => u,
                        None => {
                            proof {
                                lemma_records_none(es@, i as int);
                            }
                            return Err(AdminError::Decode);
                        },
                    },
                    _ => {
                        proof {
                            lemma_records_none(es@, i as int);
                        }
                        return Err(AdminError::Decode);
                    },
                };
                HealthResponse { address: a, status: st, uptime: up }
            },
            _ => {
                proof {
                    lemma_records_none(es@, i as int);
                }
                return Err(AdminError::Decode);
            },
        };
        out.push(rec);
        proof {
            let t = es@.take(i as int + 1);
            assert(t.drop_last() =~= es@.take(i as int));
            assert(t.last() == es@[i as int]);
            assert(records_view(out@) =~= records_view(out@.drop_last()).push(
                (out@.last().address@, out@.last().status@, out@.last().uptime),
            ));
        }
        i = i + 1;
    }
    proof {
        assert(es@.take(es@.len() as int) =~= es@);
    }
    Ok(out)
}

/// One report line: `address is status, uptime: rendered-duration`.
pub open spec fn health_line(h: HealthResponse) -> Seq<u8> {
    h.address@ + " is ".spec_bytes() + h.status@ + ", uptime: ".spec_bytes() + duration_text(
        h.uptime,
    ) + "\n".spec_bytes()
}

/// The whole report, one line per record, in order.
pub open spec fn health_text(hs: Seq<HealthResponse>) -> Seq<u8>
    decreases hs.len(),
{
    if hs.len() == 0 {
        Seq::empty()
    } else {
        health_text(hs.drop_last()) + health_line(hs.last())
    }
}

/// Formats the report for a decoded record list.
pub fn health_lines(hs: &Vec<HealthResponse>) -> (r: Vec<u8>)
    ensures
        r@ == health_text(hs@),
{
    let mut out: Vec<u8> = Vec::new();
    let mut i: usize = 0;
    while i < hs.len()
        invariant
            i <= hs@.len(),
            out@ == health_text(hs@.take(i as int)),
        decreases hs@.len() - i,
    {
        crate::bytes::push_all(&mut out, &hs[i].address);
        crate::bytes::push_all(&mut out, &(" is ").as_bytes_vec());
        crate::bytes::push_all(&mut out, &hs[i].status);
        crate::bytes::push_all(&mut out, &(", uptime: ").as_bytes_vec());
        let d = format_uptime(hs[i].uptime);
        crate::bytes::push_all(&mut out, &d);
        crate::bytes::push_all(&mut out, &("\n").as_bytes_vec());
        proof {
            let t = hs@.take(i as int + 1);
            assert(t.drop_last() =~= hs@.take(i as int));
            assert(t.last() == hs@[i as int]);
            assert(out@ =~= health_text(hs@.take(i as int)) + health_line(hs@[i as int]));
        }
        i = i + 1;
    }
    proof {
        assert(hs@.take(hs@.len() as int) =~= hs@);
    }
    out
}

} // verus!
