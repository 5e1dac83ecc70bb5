use dgraph_admin::errors::AdminError;
use dgraph_admin::gql::gql_request_body;
use dgraph_admin::gql::gql_response;
use dgraph_admin::gql::schema_variables;
use dgraph_admin::json::Json;

#[test]
fn request_body_is_the_envelope() {
    let body = gql_request_body(&b"query q".to_vec(), &b"null".to_vec());
    assert_eq!(body, b"{\"query\":\"query q\",\"variables\":null}".to_vec());
}

#[test]
fn request_body_escapes_the_query() {
    let body = gql_request_body(&b"say \"hi\"\n".to_vec(), &b"{}".to_vec());
    assert_eq!(
        body,
        b"{\"query\":\"say \\\"hi\\\"\\n\",\"variables\":{}}".to_vec()
    );
}

#[test]
fn schema_variables_escape_the_schema() {
    let vars = schema_variables(&b"type Query {\n\tname: String\n}".to_vec());
    assert_eq!(
        vars,
        b"{\"schema\":\"type Query {\\n\\tname: String\\n}\"}".to_vec()
    );
}

#[test]
fn errors_array_fails_with_its_message() {
    let r = gql_response(&b"{\"data\": null, \"errors\": [{\"message\":\"bad\"}]}".to_vec());
    match r {
        Err(AdminError::Graphql(ms)) => {
            assert_eq!(ms, vec![b"bad".to_vec()]);
        }
        other => panic!("unexpected outcome: {:?}", other),
    }
}

#[test]
fn error_order_is_preserved() {
    let r = gql_response(
        &b"{\"errors\": [{\"message\":\"first\"},{\"message\":\"second\"},{\"message\":\"first\"}]}"
            .to_vec(),
    );
    match r {
        Err(AdminError::Graphql(ms)) => {
            assert_eq!(
                ms,
                vec![b"first".to_vec(), b"second".to_vec(), b"first".to_vec()]
            );
        }
        other => panic!("unexpected outcome: {:?}", other),
    }
}

#[test]
fn data_without_errors_succeeds() {
    let r = gql_response(&b"{\"data\": {\"x\":1}, \"errors\": null}".to_vec());
    match r {
        Ok(Some(Json::Obj(fs))) => {
            assert_eq!(fs.len(), 1);
            assert_eq!(fs[0].0, b"x".to_vec());
            assert!(matches!(&fs[0].1, Json::Num(n) if *n == b"1".to_vec()));
        }
        other => panic!("unexpected outcome: {:?}", other),
    }
}

#[test]
fn empty_errors_array_still_succeeds() {
    let r = gql_response(&b"{\"data\": null, \"errors\": []}".to_vec());
    assert!(matches!(r, Ok(None)));
}

#[test]
fn null_data_counts_as_absent() {
    let r = gql_response(&b"{\"data\": null}".to_vec());
    assert!(matches!(r, Ok(None)));
}

#[test]
fn errors_of_the_wrong_shape_are_a_decode_failure() {
    assert!(matches!(
        gql_response(&b"{\"errors\": 5}".to_vec()),
        Err(AdminError::Decode)
    ));
    assert!(matches!(
        gql_response(&b"{\"errors\": [{\"note\":\"no message\"}]}".to_vec()),
        Err(AdminError::Decode)
    ));
    assert!(matches!(
        gql_response(&b"{\"errors\": [3]}".to_vec()),
        Err(AdminError::Decode)
    ));
}

#[test]
fn non_object_envelope_is_a_decode_failure() {
    assert!(matches!(
        gql_response(&b"[]".to_vec()),
        Err(AdminError::Decode)
    ));
    assert!(matches!(
        gql_response(&b"not json at all".to_vec()),
        Err(AdminError::Decode)
    ));
}

#[test]
fn graphql_error_description_lists_messages() {
    let e = AdminError::Graphql(vec![b"bad".to_vec(), b"worse".to_vec()]);
    assert_eq!(e.describe(), b"graphql errors:\n- bad\n- worse".to_vec());
}
