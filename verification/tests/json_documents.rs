use dgraph_admin::json::Json;
use dgraph_admin::json::json_parse;
use dgraph_admin::json::lookup;

fn parse(s: &[u8]) -> Option<Json> {
    json_parse(&s.to_vec())
}

#[test]
fn whitespace_around_tokens_is_tolerated() {
    let j = parse(b" { \"a\" : [ 1 , true , null ] } ").expect("should parse");
    match j {
        Json::Obj(fs) => {
            assert_eq!(fs.len(), 1);
            assert_eq!(fs[0].0, b"a".to_vec());
            match &fs[0].1 {
                Json::Arr(es) => {
                    assert_eq!(es.len(), 3);
                    assert!(matches!(&es[0], Json::Num(n) if *n == b"1".to_vec()));
                    assert!(matches!(&es[1], Json::Bool(true)));
                    assert!(matches!(&es[2], Json::Null));
                }
                other => panic!("unexpected value: {:?}", other),
            }
        }
        other => panic!("unexpected value: {:?}", other),
    }
}

#[test]
fn string_escapes_are_decoded() {
    let j = parse(b"\"\\u0041\\u00e9\\n\\\\\\\" \\ud83d\\ude00\"").expect("should parse");
    match j {
        Json::Str(s) => assert_eq!(s, "A\u{e9}\n\\\" \u{1f600}".as_bytes().to_vec()),
        other => panic!("unexpected value: {:?}", other),
    }
}

#[test]
fn malformed_documents_are_rejected() {
    assert!(parse(b"").is_none());
    assert!(parse(b"{").is_none());
    assert!(parse(b"{\"a\":1,}").is_none());
    assert!(parse(b"[1 2]").is_none());
    assert!(parse(b"\"unterminated").is_none());
    assert!(parse(b"\"\\ud800\"").is_none());
    assert!(parse(b"nul").is_none());
    assert!(parse(b"01").is_none());
    assert!(parse(b"1 1").is_none());
    assert!(parse(b"\"a\x01b\"").is_none());
}

#[test]
fn number_texts_are_kept_verbatim() {
    assert!(matches!(parse(b"-1.5e3"), Some(Json::Num(n)) if n == b"-1.5e3".to_vec()));
    assert!(matches!(parse(b"0.25"), Some(Json::Num(n)) if n == b"0.25".to_vec()));
}

#[test]
fn first_duplicate_key_wins() {
    let j = parse(b"{\"a\":1,\"a\":2}").expect("should parse");
    match j {
        Json::Obj(fs) => match lookup(&fs, &b"a".to_vec()) {
            Some(Json::Num(n)) => assert_eq!(*n, b"1".to_vec()),
            other => panic!("unexpected value: {:?}", other),
        },
        other => panic!("unexpected value: {:?}", other),
    }
}

#[test]
fn nested_structures_round_about() {
    let j = parse(b"{\"outer\":{\"inner\":[{\"k\":\"v\"},[],{}]}}").expect("should parse");
    match j {
        Json::Obj(fs) => match lookup(&fs, &b"outer".to_vec()) {
            Some(Json::Obj(inner)) => match lookup(inner, &b"inner".to_vec()) {
                Some(Json::Arr(es)) => assert_eq!(es.len(), 3),
                other => panic!("unexpected value: {:?}", other),
            },
            other => panic!("unexpected value: {:?}", other),
        },
        other => panic!("unexpected value: {:?}", other),
    }
}
