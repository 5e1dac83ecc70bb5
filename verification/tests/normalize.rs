use dgraph_admin::endpoint::normalize;
use dgraph_admin::errors::AdminError;

#[test]
fn bare_host_port_gets_http_scheme() {
    let r = normalize(&b"localhost:8080".to_vec()).unwrap();
    assert_eq!(r, b"http://localhost:8080/".to_vec());
}

#[test]
fn scheme_and_path_keeps_authority_drops_path() {
    let r = normalize(&b"https://example.com:8443/graphql".to_vec()).unwrap();
    assert_eq!(r, b"https://example.com:8443/".to_vec());
}

#[test]
fn plain_url_path_cleared() {
    let r = normalize(&b"http://example.com/some/deep/path?x=1#frag".to_vec()).unwrap();
    assert_eq!(r, b"http://example.com/".to_vec());
}

#[test]
fn bare_host_with_port_and_path() {
    let r = normalize(&b"localhost:8080/graphql".to_vec()).unwrap();
    assert_eq!(r, b"http://localhost:8080/".to_vec());
}

#[test]
fn bare_host_without_port_gets_scheme_via_retry() {
    // the first parse fails outright (no scheme, no port); the retry with
    // http:// prepended succeeds
    let r = normalize(&b"localhost".to_vec()).unwrap();
    assert_eq!(r, b"http://localhost/".to_vec());
}

#[test]
fn malformed_endpoint_is_url_error() {
    match normalize(&b"[".to_vec()) {
        Err(AdminError::Url) => {}
        other => panic!("unexpected outcome: {:?}", other),
    }
}
