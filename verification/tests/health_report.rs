use dgraph_admin::errors::AdminError;
use dgraph_admin::health::HealthResponse;
use dgraph_admin::health::health_lines;
use dgraph_admin::health::parse_health;
use dgraph_admin::health::parse_u64;
use dgraph_admin::json::json_parse;

fn health_output(body: &[u8]) -> Result<Vec<u8>, AdminError> {
    let j = json_parse(&body.to_vec()).ok_or(AdminError::Decode)?;
    let records = parse_health(j)?;
    Ok(health_lines(&records))
}

#[test]
fn one_node_formats_one_line() {
    let out =
        health_output(b"[{\"address\":\"n1:8080\",\"status\":\"healthy\",\"uptime\":3661}]")
            .unwrap();
    assert_eq!(out, b"n1:8080 is healthy, uptime: 1h 1m 1s\n".to_vec());
}

#[test]
fn unknown_members_are_ignored() {
    let out = health_output(
        b"[{\"version\":\"1.2\",\"address\":\"n1:8080\",\"group\":1,\"status\":\"healthy\",\
           \"uptime\":59,\"ee_features\":[\"acl\",{\"deep\":null}]}]",
    )
    .unwrap();
    assert_eq!(out, b"n1:8080 is healthy, uptime: 59s\n".to_vec());
}

#[test]
fn lines_follow_record_order() {
    let out = health_output(
        b"[{\"address\":\"a:1\",\"status\":\"healthy\",\"uptime\":0},\
           {\"address\":\"b:2\",\"status\":\"degraded\",\"uptime\":90061}]",
    )
    .unwrap();
    let expected = format!(
        "a:1 is healthy, uptime: {}\nb:2 is degraded, uptime: {}\n",
        humantime::format_duration(std::time::Duration::new(0, 0)),
        humantime::format_duration(std::time::Duration::new(90061, 0)),
    );
    assert_eq!(out, expected.into_bytes());
}

#[test]
fn fractional_uptime_is_a_decode_failure() {
    let r = health_output(b"[{\"address\":\"n1:8080\",\"status\":\"healthy\",\"uptime\":3661.5}]");
    assert!(matches!(r, Err(AdminError::Decode)));
}

#[test]
fn missing_field_is_a_decode_failure() {
    let r = health_output(b"[{\"status\":\"healthy\",\"uptime\":1}]");
    assert!(matches!(r, Err(AdminError::Decode)));
    let r = health_output(b"[{\"address\":\"n1:8080\",\"status\":7,\"uptime\":1}]");
    assert!(matches!(r, Err(AdminError::Decode)));
}

#[test]
fn non_array_body_is_a_decode_failure() {
    let r = health_output(b"{\"address\":\"n1:8080\"}");
    assert!(matches!(r, Err(AdminError::Decode)));
}

#[test]
fn empty_cluster_prints_nothing() {
    assert_eq!(health_output(b"[]").unwrap(), Vec::<u8>::new());
}

#[test]
fn formatting_a_built_record() {
    let hs = vec![HealthResponse {
        address: b"n2:9080".to_vec(),
        status: b"ok".to_vec(),
        uptime: 60,
    }];
    assert_eq!(health_lines(&hs), b"n2:9080 is ok, uptime: 1m\n".to_vec());
}

#[test]
fn decimal_parsing_bounds() {
    assert_eq!(parse_u64(&b"3661".to_vec()), Some(3661));
    assert_eq!(parse_u64(&b"0".to_vec()), Some(0));
    assert_eq!(parse_u64(&b"18446744073709551615".to_vec()), Some(u64::MAX));
    assert_eq!(parse_u64(&b"18446744073709551616".to_vec()), None);
    assert_eq!(parse_u64(&b"".to_vec()), None);
    assert_eq!(parse_u64(&b"12a".to_vec()), None);
    assert_eq!(parse_u64(&b"-3".to_vec()), None);
}
