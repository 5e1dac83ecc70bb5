//! The GraphQL exchange: serializing the outbound `{query, variables}`
//! envelope and interpreting the inbound `{data, errors}` envelope.

use crate::errors::AdminError;
use crate::json::Json;
use crate::json::JsonDoc;
use crate::json::deep;
use crate::json::deep_fields;
use crate::json::deep_list;
use crate::json::escape_bytes;
use crate::json::obj_get;
use crate::json::sp_doc;
use vstd::prelude::*;
use vstd::string::StrSliceExecFns;
use vstd::string::StringSliceAdditionalSpecFns;

verus! {

/// The serialized request envelope for a query and pre-serialized variables.
pub open spec fn request_body_text(query: Seq<u8>, variables: Seq<u8>) -> Seq<u8> {
    "{\"query\":\"".spec_bytes() + escape_bytes(query) + "\",\"variables\":".spec_bytes()
        + variables + "}".spec_bytes()
}

/// Serializes the outbound envelope. `variables_json` must already be JSON
/// text; the two call sites in this crate build it with `schema_variables` or
/// pass the `null` literal.
pub fn gql_request_body(query: &Vec<u8>, variables_json: &Vec<u8>) -> (r: Vec<u8>)
    ensures
        r@ == request_body_text(query@, variables_json@),
{
    let mut out = ("{\"query\":\"").as_bytes_vec();
    crate::json::push_escaped(&mut out, query);
    crate::bytes::push_all(&mut out, &("\",\"variables\":").as_bytes_vec());
    crate::bytes::push_all(&mut out, variables_json);
    crate::bytes::push_all(&mut out, &("}").as_bytes_vec());
    out
}

/// The JSON object carrying a schema text as the one variable.
pub open spec fn schema_variables_text(schema: Seq<u8>) -> Seq<u8> {
    "{\"schema\":\"".spec_bytes() + escape_bytes(schema) + "\"}".spec_bytes()
}

/// Serializes the variables object for a schema mutation.
pub fn schema_variables(schema: &Vec<u8>) -> (r: Vec<u8>)
    ensures
        r@ == schema_variables_text(schema@),
{
    let mut out = ("{\"schema\":\"").as_bytes_vec();
    crate::json::push_escaped(&mut out, schema);
    crate::bytes::push_all(&mut out, &("\"}").as_bytes_vec());
    out
}

/// The message of one element of the errors array, when it has the expected
/// shape: an object with a string under `message`.
pub open spec fn message_of(e: Json) -> Option<Seq<u8>> {
    match e {
        Json::Obj(fs) => match obj_get(fs@, "message".spec_bytes()) {
            Some(Json::Str(m)) => Some(m@),
            _ => None,
        },
        _ => None,
    }
}

/// The messages of the whole errors array, in server order; nothing when any
/// element lacks the expected shape.
pub open spec fn messages_of(es: Seq<Json>) -> Option<Seq<Seq<u8>>>
    decreases es.len(),
{
    if es.len() == 0 {
        Some(Seq::empty())
    } else {
        match (messages_of(es.drop_last()), message_of(es.last())) {
            (Some(ms), Some(m)) => Some(ms.push(m)),
            _ => None,
        }
    }
}

proof fn lemma_messages_none(es: Seq<Json>, i: int)
    requires
        0 <= i < es.len(),
        message_of(es[i]) is None,
    ensures
        messages_of(es) is None,
    decreases es.len(),
{
    if i < es.len() - 1 {
        lemma_messages_none(es.drop_last(), i);
    }
}

/// The data member of the envelope, with a JSON `null` treated as absent.
pub open spec fn envelope_data(fs: Seq<(Vec<u8>, Json)>) -> Option<Json> {
    match obj_get(fs, "data".spec_bytes()) {
        None => None,
        Some(Json::Null) => None,
        Some(d) => Some(d),
    }
}

/// What `interpret_envelope` returns for the envelope `j`.
pub open spec fn envelope_verdict_ok(j: Json, r: Result<Option<Json>, AdminError>) -> bool {
    match j {
        Json::Obj(fs) => {
            let e = obj_get(fs@, "errors".spec_bytes());
            if e is None || e == Some(Json::Null) {
                r == Ok::<Option<Json>, AdminError>(envelope_data(fs@))
            } else {
                match e {
                    Some(Json::Arr(es)) => {
                        if es@.len() == 0 {
                            r == Ok::<Option<Json>, AdminError>(envelope_data(fs@))
                        } else {
                            match messages_of(es@) {
                                Some(ms) => r matches Err(f) && f matches AdminError::Graphql(got)
                                    && got@.len() == es@.len() && got@.map_values(
                                    |m: Vec<u8>| m@,
                                ) == ms,
                                None => r matches Err(f) && f is Decode,
                            }
                        }
                    },
                    _ => r matches Err(f) && f is Decode,
                }
            }
        },
        _ => r matches Err(f) && f is Decode,
    }
}

/// Decides the envelope: a present, non-empty errors array fails the
/// operation with the full ordered message list; otherwise the data member is
/// handed out, `null` counting as absent. An envelope or error element
/// outside the expected shape is a decode failure.
pub fn interpret_envelope(j: Json) -> (r: Result<Option<Json>, AdminError>)
    ensures
        envelope_verdict_ok(j, r),
        r matches Err(f) ==> f is Decode || (f matches AdminError::Graphql(ms) && ms@.len() > 0),
{
    let mut fs = match j {
        Json::Obj(fs) => fs,
        _ => { return Err(AdminError::Decode); },
    };
    let ghost fs0 = fs@;
    match crate::json::lookup_index(&fs, &("errors").as_bytes_vec()) {
        None => Ok(take_data(fs)),
        Some(ei) => {
            let e = &fs[ei].1;
            match e {
                Json::Null => Ok(take_data(fs)),
                Json::Arr(es) => {
                    if es.len() == 0 {
                        Ok(take_data(fs))
                    } else {
                        let mut got: Vec<Vec<u8>> = Vec::new();
                        let mut i: usize = 0;
                        while i < es.len()
                            invariant
                                i <= es@.len(),
                                got@.len() == i,
                                messages_of(es@.take(i as int)) == Some(
                                    got@.map_values(|m: Vec<u8>| m@),
                                ),
                                0 < es@.len(),
                                j matches Json::Obj(fv) && fv@ == fs0,
                                obj_get(fs0, "errors".spec_bytes()) == Some(Json::Arr(*es)),
                            decreases es@.len() - i,
                        {
                            let m = match &es[i] {
                                Json::Obj(efs) => {
                                    match crate::json::lookup(efs, &("message").as_bytes_vec()) {
                                        Some(Json::Str(m)) => crate::bytes::clone_bytes(m),
                                        _ => {
                                            proof {
                                                lemma_messages_none(es@, i as int);
                                            }
                                            return Err(AdminError::Decode);
                                        },
                                    }
                                },
                                _ => {
                                    proof {
                                        lemma_messages_none(es@, i as int);
                                    }
                                    return Err(AdminError::Decode);
                                },
                            };
                            got.push(m);
                            proof {
                                let t = es@.take(i as int + 1);
                                assert(t.drop_last() =~= es@.take(i as int));
                                assert(t.last() == es@[i as int]);
                                assert(got@.map_values(|m: Vec<u8>| m@) =~= got@.drop_last()
                                    .map_values(|m: Vec<u8>| m@).push(got@.last()@));
                            }
                            i = i + 1;
                        }
                        proof {
                            assert(es@.take(es@.len() as int) =~= es@);
                        }
                        Err(AdminError::Graphql(got))
                    }
                },
                _ => Err(AdminError::Decode),
            }
        },
    }
}

/// Removes and returns the data member, `null` counting as absent.
fn take_data(fs: Vec<(Vec<u8>, Json)>) -> (r: Option<Json>)
    ensures
        r == envelope_data(fs@),
{
    let mut fs = fs;
    match crate::json::lookup_index(&fs, &("data").as_bytes_vec()) {
        None => None,
        Some(i) => {
            let (_, d) = fs.remove(i);
            match d {
                Json::Null => None,
                d => Some(d),
            }
        },
    }
}

/// The document a returned data value denotes, absence kept.
pub open spec fn opt_deep(d: Option<Json>) -> Option<JsonDoc> {
    match d {
        Some(j) => Some(deep(j)),
        None => None,
    }
}

/// `obj_get`, read on the document.
pub open spec fn doc_obj_get(fs: Seq<(Seq<u8>, JsonDoc)>, key: Seq<u8>) -> Option<JsonDoc>
    decreases fs.len(),
{
    if fs.len() == 0 {
        None
    } else if fs[0].0 == key {
        Some(fs[0].1)
    } else {
        doc_obj_get(fs.drop_first(), key)
    }
}

/// `message_of`, read on the document.
pub open spec fn doc_message_of(e: JsonDoc) -> Option<Seq<u8>> {
    match e {
        JsonDoc::Obj(fs) => match doc_obj_get(fs, "message".spec_bytes()) {
            Some(JsonDoc::Str(m)) => Some(m),
            _ => None,
        },
        _ => None,
    }
}

/// `messages_of`, read on the document.
pub open spec fn doc_messages_of(es: Seq<JsonDoc>) -> Option<Seq<Seq<u8>>>
    decreases es.len(),
{
    if es.len() == 0 {
        Some(Seq::empty())
    } else {
        match (doc_messages_of(es.drop_last()), doc_message_of(es.last())) {
            (Some(ms), Some(m)) => Some(ms.push(m)),
            _ => None,
        }
    }
}

/// `envelope_data`, read on the document.
pub open spec fn doc_envelope_data(fs: Seq<(Seq<u8>, JsonDoc)>) -> Option<JsonDoc> {
    match doc_obj_get(fs, "data".spec_bytes()) {
        None => None,
        Some(JsonDoc::Null) => None,
        Some(d) => Some(d),
    }
}

/// The envelope verdict, stated on the document a response body denotes.
pub open spec fn doc_verdict(d: JsonDoc, r: Result<Option<Json>, AdminError>) -> bool {
    match d {
        JsonDoc::Obj(fs) => {
            let e = doc_obj_get(fs, "errors".spec_bytes());
            if e is None || e == Some(JsonDoc::Null) {
                r matches Ok(data) && opt_deep(data) == doc_envelope_data(fs)
            } else {
                match e {
                    Some(JsonDoc::Arr(es)) => {
                        if es.len() == 0 {
                            r matches Ok(data) && opt_deep(data) == doc_envelope_data(fs)
                        } else {
                            match doc_messages_of(es) {
                                Some(ms) => r matches Err(f) && f matches AdminError::Graphql(got)
                                    && got@.len() == es.len() && got@.map_values(
                                    |m: Vec<u8>| m@,
                                ) == ms,
                                None => r matches Err(f) && f is Decode,
                            }
                        }
                    },
                    _ => r matches Err(f) && f is Decode,
                }
            }
        },
        _ => r matches Err(f) && f is Decode,
    }
}

proof fn lemma_deep_fields_index(fs: Seq<(Vec<u8>, Json)>)
    ensures
        deep_fields(fs).len() == fs.len(),
        forall|k: int|
            0 <= k < fs.len() ==> #[trigger] deep_fields(fs)[k] == (fs[k].0@, deep(fs[k].1)),
    decreases fs.len(),
{
    if fs.len() > 0 {
        lemma_deep_fields_index(fs.drop_last());
    }
}

proof fn lemma_deep_list_index(l: Seq<Json>)
    ensures
        deep_list(l).len() == l.len(),
        forall|k: int| 0 <= k < l.len() ==> #[trigger] deep_list(l)[k] == deep(l[k]),
    decreases l.len(),
{
    if l.len() > 0 {
        lemma_deep_list_index(l.drop_last());
    }
}

proof fn lemma_obj_get_deep(fs: Seq<(Vec<u8>, Json)>, key: Seq<u8>)
    ensures
        doc_obj_get(deep_fields(fs), key) == opt_deep(obj_get(fs, key)),
    decreases fs.len(),
{
    lemma_deep_fields_index(fs);
    if fs.len() > 0 {
        if fs[0].0@ != key {
            lemma_obj_get_deep(fs.drop_first(), key);
            lemma_deep_fields_index(fs.drop_first());
            assert(deep_fields(fs).drop_first() =~= deep_fields(fs.drop_first()));
        }
    }
}

proof fn lemma_message_deep(e: Json)
    ensures
        doc_message_of(deep(e)) == message_of(e),
{
    match e {
        Json::Obj(fs) => {
            lemma_obj_get_deep(fs@, "message".spec_bytes());
            match obj_get(fs@, "message".spec_bytes()) {
                Some(j0) => {
                    match j0 {
                        Json::Str(_) => {},
                        _ => {},
                    }
                },
                None => {},
            }
        },
        _ => {},
    }
}

proof fn lemma_messages_deep(es: Seq<Json>)
    ensures
        doc_messages_of(deep_list(es)) == messages_of(es),
    decreases es.len(),
{
    lemma_deep_list_index(es);
    if es.len() > 0 {
        lemma_messages_deep(es.drop_last());
        lemma_message_deep(es.last());
        assert(deep_list(es).drop_last() =~= deep_list(es.drop_last()));
        assert(deep_list(es).last() == deep(es.last()));
    }
}

proof fn lemma_data_deep(fs: Seq<(Vec<u8>, Json)>)
    ensures
        doc_envelope_data(deep_fields(fs)) == opt_deep(envelope_data(fs)),
{
    lemma_obj_get_deep(fs, "data".spec_bytes());
    match obj_get(fs, "data".spec_bytes()) {
        Some(j0) => {
            match j0 {
                Json::Null => {},
                _ => {},
            }
        },
        None => {},
    }
}

/// The executable verdict on a parsed envelope carries over to the document
/// it denotes.
proof fn lemma_verdict_deep(j: Json, r: Result<Option<Json>, AdminError>)
    requires
        envelope_verdict_ok(j, r),
    ensures
        doc_verdict(deep(j), r),
{
    match j {
        Json::Obj(fs) => {
            lemma_obj_get_deep(fs@, "errors".spec_bytes());
            lemma_data_deep(fs@);
            match obj_get(fs@, "errors".spec_bytes()) {
                None => {},
                Some(e0) => match e0 {
                    Json::Null => {},
                    Json::Arr(es) => {
                        lemma_deep_list_index(es@);
                        lemma_messages_deep(es@);
                    },
                    _ => {},
                },
            }
        },
        _ => {},
    }
}

/// Parses a response body and decides its envelope: the verdict is fixed by
/// the document the bytes denote, and a body denoting none is a decode
/// failure.
pub fn gql_response(body: &Vec<u8>) -> (r: Result<Option<Json>, AdminError>)
    ensures
        (match sp_doc(body@) {
            None => r matches Err(f) && f is Decode,
            Some(d) => doc_verdict(d, r),
        }),
        r matches Err(f) ==> f is Decode || (f matches AdminError::Graphql(ms) && ms@.len() > 0),
{
    match crate::json::json_parse(body) {
        None => Err(AdminError::Decode),
        Some(j) => {
            let r = interpret_envelope(j);
            proof {
                lemma_verdict_deep(j, r);
            }
            r
        },
    }
}

} // verus!
