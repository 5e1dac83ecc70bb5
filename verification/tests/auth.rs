use dgraph_admin::client::Dgraph;
use dgraph_admin::transport::Method;
use dgraph_admin::transport::split_once_colon;

fn client(auth: Option<&[u8]>) -> Dgraph {
    Dgraph::new(&b"localhost:8080".to_vec(), auth.map(|a| a.to_vec())).unwrap()
}

#[test]
fn auth_with_colon_sets_header() {
    let plan = client(Some(b"X-Key:secret")).post(&b"admin".to_vec());
    assert!(matches!(plan.method, Method::Post));
    assert_eq!(plan.url, b"http://localhost:8080/admin".to_vec());
    let h = plan.header.expect("header should be attached");
    assert_eq!(h.name, b"X-Key".to_vec());
    assert_eq!(h.value, b"secret".to_vec());
}

#[test]
fn auth_without_colon_attaches_no_header() {
    let plan = client(Some(b"nocolon")).post(&b"admin".to_vec());
    assert!(plan.header.is_none());
}

#[test]
fn absent_auth_attaches_no_header() {
    let plan = client(None).get(&b"health".to_vec());
    assert!(matches!(plan.method, Method::Get));
    assert_eq!(plan.url, b"http://localhost:8080/health".to_vec());
    assert!(plan.header.is_none());
}

#[test]
fn auth_splits_on_first_colon_only() {
    let kv = split_once_colon(&b"a:b:c".to_vec()).unwrap();
    assert_eq!(kv.0, b"a".to_vec());
    assert_eq!(kv.1, b"b:c".to_vec());
}

#[test]
fn colon_first_gives_empty_name() {
    let kv = split_once_colon(&b":v".to_vec()).unwrap();
    assert_eq!(kv.0, b"".to_vec());
    assert_eq!(kv.1, b"v".to_vec());
}

#[test]
fn no_colon_gives_nothing() {
    assert!(split_once_colon(&b"plain".to_vec()).is_none());
    assert!(split_once_colon(&b"".to_vec()).is_none());
}
