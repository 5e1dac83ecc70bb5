//! Operations against an unreachable endpoint: every exchange must surface a
//! transport failure, never panic and never succeed.

use dgraph_admin::client::Dgraph;
use dgraph_admin::errors::AdminError;
use dgraph_admin::ops;

fn unreachable_client() -> Dgraph {
    // nothing listens on port 1; the connection is refused at once
    Dgraph::new(&b"http://127.0.0.1:1".to_vec(), None).unwrap()
}

#[test]
fn client_construction_normalizes_the_url() {
    let d = unreachable_client();
    assert_eq!(d.base_url, b"http://127.0.0.1:1/".to_vec());
}

#[test]
fn alter_against_unreachable_endpoint_is_a_transport_failure() {
    let d = unreachable_client();
    match d.alter(&b"{\"drop_all\": true}".to_vec()) {
        Err(AdminError::Transport(detail)) => assert!(!detail.is_empty()),
        other => panic!("unexpected outcome: {:?}", other),
    }
}

#[test]
fn query_against_unreachable_endpoint_is_a_transport_failure() {
    let d = unreachable_client();
    let r = d.query(
        &b"admin".to_vec(),
        &b"query getGQLSchema { getGQLSchema { schema } }".to_vec(),
        &b"null".to_vec(),
    );
    assert!(matches!(r, Err(AdminError::Transport(_))));
}

#[test]
fn subcommand_dispatch_reaches_each_operation() {
    let d = unreachable_client();
    let drop_all = ops::SubCommand::DropAll(ops::DropAll {});
    assert!(matches!(
        drop_all.exec(&d),
        Err(AdminError::Transport(_))
    ));
    let drop_data = ops::SubCommand::DropData(ops::DropData {});
    assert!(matches!(
        drop_data.exec(&d),
        Err(AdminError::Transport(_))
    ));
    let get_schema = ops::SubCommand::GetSchema(ops::GetSchema {});
    assert!(matches!(
        get_schema.exec(&d),
        Err(AdminError::Transport(_))
    ));
    let get_health = ops::SubCommand::GetHealth(ops::GetHealth {});
    assert!(matches!(
        get_health.exec(&d),
        Err(AdminError::Transport(_))
    ));
    let update = ops::SubCommand::UpdateSchema(ops::UpdateSchema {
        schema: b"type Query { name: String }".to_vec(),
    });
    assert!(matches!(update.exec(&d), Err(AdminError::Transport(_))));
}

#[test]
fn transport_error_description_carries_the_detail() {
    let e = AdminError::Transport(b"connection refused".to_vec());
    assert_eq!(
        e.describe(),
        b"transport error: connection refused".to_vec()
    );
    assert_eq!(AdminError::Url.describe(), b"malformed endpoint".to_vec());
    assert_eq!(
        AdminError::Decode.describe(),
        b"unexpected response shape".to_vec()
    );
}
