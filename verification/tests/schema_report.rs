use dgraph_admin::json::json_parse;
use dgraph_admin::ops::schema_message;

fn report(data_json: &[u8]) -> Vec<u8> {
    let data = json_parse(&data_json.to_vec()).expect("test data should parse");
    schema_message(Some(data))
}

#[test]
fn empty_schema_reports_no_schema() {
    assert_eq!(
        report(b"{\"getGQLSchema\":{\"schema\":\"\"}}"),
        b"no schema".to_vec()
    );
}

#[test]
fn null_schema_reports_no_schema() {
    assert_eq!(
        report(b"{\"getGQLSchema\":{\"schema\":null}}"),
        b"no schema".to_vec()
    );
}

#[test]
fn null_chain_reports_no_schema() {
    assert_eq!(report(b"{\"getGQLSchema\":null}"), b"no schema".to_vec());
    assert_eq!(report(b"{}"), b"no schema".to_vec());
}

#[test]
fn absent_data_reports_no_schema() {
    assert_eq!(schema_message(None), b"no schema".to_vec());
}

#[test]
fn whitespace_only_schema_reports_no_schema() {
    assert_eq!(
        report(b"{\"getGQLSchema\":{\"schema\":\"  \\n\\t \"}}"),
        b"no schema".to_vec()
    );
}

#[test]
fn schema_text_is_trimmed() {
    assert_eq!(
        report(b"{\"getGQLSchema\":{\"schema\":\"  type Query { name: String }  \"}}"),
        b"type Query { name: String }".to_vec()
    );
}
