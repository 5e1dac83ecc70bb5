use dgraph_admin::client::alter_outcome;
use dgraph_admin::errors::AdminError;

#[test]
fn exact_success_literal_is_accepted() {
    let body = b"{\"data\":{\"code\":\"Success\",\"message\":\"Done\"}}".to_vec();
    assert!(alter_outcome(body).is_ok());
}

#[test]
fn extra_whitespace_is_rejected() {
    let body = b"{\"data\": {\"code\":\"Success\",\"message\":\"Done\"}}".to_vec();
    match alter_outcome(body.clone()) {
        Err(AdminError::AlterMismatch(b)) => assert_eq!(b, body),
        other => panic!("unexpected outcome: {:?}", other),
    }
}

#[test]
fn different_key_order_is_rejected() {
    let body = b"{\"data\":{\"message\":\"Done\",\"code\":\"Success\"}}".to_vec();
    assert!(matches!(
        alter_outcome(body),
        Err(AdminError::AlterMismatch(_))
    ));
}

#[test]
fn server_error_body_is_surfaced() {
    let body = b"{\"errors\":[{\"message\":\"denied\"}]}".to_vec();
    match alter_outcome(body) {
        Err(e) => {
            let text = e.describe();
            assert_eq!(
                text,
                b"unexpected response: {\"errors\":[{\"message\":\"denied\"}]}".to_vec()
            );
        }
        other => panic!("unexpected outcome: {:?}", other),
    }
}
