use pieeg_local_bridge::config::OscConfig;
use pieeg_local_bridge::float::F64;
use pieeg_local_bridge::json::{parse, Json, Number};
use pieeg_local_bridge::message::{Arg, BridgeMessage};
use pieeg_local_bridge::router::{flatten, join, map_inbound, parse_osc_envelope};

fn osc() -> OscConfig {
    OscConfig::default()
}

fn json(text: &str) -> Json {
    parse(text.as_bytes()).expect("JSON")
}

fn float(x: f64) -> Arg {
    Arg::Float(F64 { bits: x.to_bits() })
}

fn message(address: &str, args: Vec<Arg>) -> BridgeMessage {
    BridgeMessage::new(address.to_string(), args)
}

fn sorted(mut messages: Vec<BridgeMessage>) -> Vec<BridgeMessage> {
    messages.sort_by(|a, b| a.address.cmp(&b.address));
    messages
}

#[test]
fn explicit_envelope_object() {
    let msgs = map_inbound(&json(r#"{"osc": {"address": "/a", "args": [1.0]}}"#), &osc());
    assert_eq!(msgs.len(), 1);
    assert_eq!(msgs[0].address, "/a");
}

#[test]
fn explicit_envelope_array() {
    let msgs = map_inbound(
        &json(r#"{"osc": [{"address": "/a", "args": []}, {"address": "/b", "args": [true]}]}"#),
        &osc(),
    );
    assert_eq!(msgs.len(), 2);
}

#[test]
fn flatten_channels_array_skips_metadata() {
    let msgs = map_inbound(
        &json(r#"{"channels": [0.1, 0.2, 0.3], "t": 123.0, "type": "x"}"#),
        &osc(),
    );
    let addrs: Vec<_> = msgs.iter().map(|m| m.address.as_str()).collect();
    assert!(addrs.contains(&"/pieeg/channels/0"));
    assert!(addrs.contains(&"/pieeg/channels/2"));
    // metadata keys are never emitted
    assert!(!addrs.iter().any(|a| a.contains("/t") || a.contains("type")));
}

#[test]
fn flatten_disabled_yields_nothing() {
    let mut c = osc();
    c.flatten = false;
    assert!(map_inbound(&json(r#"{"channels": [1.0]}"#), &c).is_empty());
}

#[test]
fn envelopes_are_forwarded_verbatim() {
    let msgs = map_inbound(
        &json(r#"{"osc": {"address": "/avatar/parameters/EEG_Alpha", "args": [0.42]}}"#),
        &osc(),
    );
    assert_eq!(msgs, vec![message("/avatar/parameters/EEG_Alpha", vec![float(0.42)])]);

    let msgs = map_inbound(
        &json(r#"{"osc": [{"address": "/a", "args": [1]}, {"address": "/b", "args": [true, "x"]}], "z": 1}"#),
        &osc(),
    );
    assert_eq!(
        msgs,
        vec![
            message("/a", vec![Arg::Int(1)]),
            message("/b", vec![Arg::Bool(true), Arg::Str("x".to_string())]),
        ]
    );
}

#[test]
fn envelope_wins_over_the_switch() {
    let mut c = osc();
    c.flatten = false;
    let msgs = map_inbound(&json(r#"{"osc": {"address": "/a"}}"#), &c);
    assert_eq!(msgs, vec![message("/a", vec![])]);
}

#[test]
fn empty_list_of_envelopes_yields_nothing() {
    assert!(map_inbound(&json(r#"{"osc": [], "x": 1}"#), &osc()).is_empty());
}

#[test]
fn flattened_frame_has_the_addresses_of_its_leaves() {
    let msgs = map_inbound(&json(r#"{ "channels": [0.1, 0.2, 0.3], "t": 123 }"#), &osc());
    assert_eq!(
        sorted(msgs),
        vec![
            message("/pieeg/channels/0", vec![float(0.1)]),
            message("/pieeg/channels/1", vec![float(0.2)]),
            message("/pieeg/channels/2", vec![float(0.3)]),
        ]
    );
}

#[test]
fn every_kind_of_leaf_is_flattened_but_null() {
    let msgs = map_inbound(
        &json(r#"{"a": {"b": true, "c": "hi"}, "d": null, "e": 3, "f": {"name": 1}}"#),
        &osc(),
    );
    assert_eq!(
        sorted(msgs),
        vec![
            message("/pieeg/a/b", vec![Arg::Bool(true)]),
            message("/pieeg/a/c", vec![Arg::Str("hi".to_string())]),
            message("/pieeg/e", vec![float(3.0)]),
        ]
    );
}

#[test]
fn bare_leaf_stands_at_the_prefix() {
    assert_eq!(map_inbound(&json("7"), &osc()), vec![message("/pieeg", vec![float(7.0)])]);
    assert!(map_inbound(&json("null"), &osc()).is_empty());
}

#[test]
fn all_metadata_names_are_skipped() {
    for name in [
        "type", "t", "ts", "viewerId", "viewer_id", "from", "to", "color", "name", "list",
        "viewers", "data",
    ] {
        let text = format!("{{\"{name}\": 1}}");
        assert!(map_inbound(&json(&text), &osc()).is_empty(), "{name}");
    }
    assert_eq!(map_inbound(&json(r#"{"tt": 1}"#), &osc()).len(), 1);
}

#[test]
fn broken_envelope_is_flattened() {
    for text in [
        r#"{"osc": {"args": [1]}}"#,
        r#"{"osc": {"address": 1}}"#,
        r#"{"osc": {"address": "/a", "args": 1}}"#,
        r#"{"osc": {"address": "/a", "args": null}}"#,
        r#"{"osc": {"address": "/a", "args": [null]}}"#,
        r#"{"osc": {"address": "/a", "args": [[1]]}}"#,
        r#"{"osc": [{"address": "/a"}, 3]}"#,
        r#"{"osc": "/a"}"#,
    ] {
        let value = json(text);
        assert!(parse_osc_envelope(value.get("osc").unwrap()).is_none(), "{text}");
        for m in map_inbound(&value, &osc()) {
            assert!(m.address.starts_with("/pieeg/osc"), "{text}");
        }
    }
}

#[test]
fn envelope_may_be_a_short_list() {
    let value = json(r#"[["/a"], ["/b", [1]]]"#);
    assert_eq!(
        parse_osc_envelope(&value),
        Some(vec![message("/a", vec![]), message("/b", vec![Arg::Int(1)])])
    );
    assert_eq!(parse_osc_envelope(&json(r#"[[]]"#)), None);
    assert_eq!(parse_osc_envelope(&json(r#"[["/a", [], 1]]"#)), None);
}

#[test]
fn envelope_args_are_read_as_serde_reads_untagged_values() {
    let value = json(r#"{"address": "/a", "args": [3, -3, 2.5, 18446744073709551615, "s", false], "more": 1}"#);
    let read = parse_osc_envelope(&value).unwrap();
    assert_eq!(
        read,
        vec![message(
            "/a",
            vec![
                Arg::Int(3),
                Arg::Int(-3),
                float(2.5),
                float(18446744073709551615.0),
                Arg::Str("s".to_string()),
                Arg::Bool(false),
            ],
        )]
    );
}

#[test]
fn join_puts_one_slash_between() {
    assert_eq!(join("/pieeg", "x"), "/pieeg/x");
    assert_eq!(join("/pieeg//", "x"), "/pieeg/x");
    assert_eq!(join("", "x"), "/x");
    assert_eq!(join("/", "/x"), "//x");
}

#[test]
fn flatten_appends_to_what_is_there() {
    let mut out = vec![message("/first", vec![])];
    let value = Json::Array(vec![
        Json::Bool(true),
        Json::Number(Number { int: Some(5), float: None }),
        Json::Number(Number { int: None, float: None }),
    ]);
    flatten("/p", &value, &mut out);
    assert_eq!(
        out,
        vec![
            message("/first", vec![]),
            message("/p/0", vec![Arg::Bool(true)]),
            message("/p/1", vec![Arg::Int(5)]),
            message("/p/2", vec![float(0.0)]),
        ]
    );
}

#[test]
fn long_lists_are_numbered_in_decimal() {
    let value = Json::Array((0..12).map(|_| Json::Bool(false)).collect());
    let mut out = Vec::new();
    flatten("/p/", &value, &mut out);
    assert_eq!(out[0].address, "/p/0");
    assert_eq!(out[9].address, "/p/9");
    assert_eq!(out[10].address, "/p/10");
    assert_eq!(out[11].address, "/p/11");
}
