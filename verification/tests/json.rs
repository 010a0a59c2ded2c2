use pieeg_local_bridge::json::{parse, Json};

#[test]
fn values_of_every_kind_are_read() {
    let value = parse(br#"{"a": [null, true, -7, 0.5, "x"]}"#).unwrap();
    let items = match value.get("a") {
        Some(Json::Array(items)) => items,
        _ => panic!("no list"),
    };
    assert!(matches!(items[0], Json::Null));
    assert!(matches!(items[1], Json::Bool(true)));
    match items[2] {
        Json::Number(n) => {
            assert_eq!(n.int, Some(-7));
            assert_eq!(n.float.unwrap().bits, (-7.0f64).to_bits());
        }
        _ => panic!("no number"),
    }
    match items[3] {
        Json::Number(n) => {
            assert_eq!(n.int, None);
            assert_eq!(n.float.unwrap().bits, 0.5f64.to_bits());
        }
        _ => panic!("no number"),
    }
    assert!(matches!(&items[4], Json::Text(s) if s == "x"));
}

#[test]
fn what_is_not_json_is_not_read() {
    assert!(parse(b"").is_none());
    assert!(parse(b"{").is_none());
    assert!(parse(b"1 2").is_none());
    assert!(parse(b"\"\xff\"").is_none());
    assert!(parse(b"\xff").is_none());
}

#[test]
fn entries_are_found_by_name() {
    let value = parse(br#"{"b": 1, "a": {"b": 2}, "b": 3}"#).unwrap();
    assert!(matches!(value.get("b"), Some(Json::Number(n)) if n.int == Some(3)));
    assert!(value.get("c").is_none());
    assert!(Json::Bool(true).get("b").is_none());
    match value {
        Json::Object(entries) => assert_eq!(entries.len(), 2),
        _ => panic!("no object"),
    }
}

#[test]
fn large_numbers_are_no_integers() {
    let value = parse(b"18446744073709551615").unwrap();
    match value {
        Json::Number(n) => {
            assert_eq!(n.int, None);
            assert_eq!(n.float.unwrap().bits, (u64::MAX as f64).to_bits());
        }
        _ => panic!("no number"),
    }
}
