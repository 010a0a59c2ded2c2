use pieeg_local_bridge::adapters::osc::{deliver, to_osc_message, to_osc_type, OscType, ADAPTER_ID};
use pieeg_local_bridge::float::F64;
use pieeg_local_bridge::json::parse;
use pieeg_local_bridge::message::{Arg, BridgeMessage};
use pieeg_local_bridge::router::map_inbound;

fn sent_int(i: i64) -> i32 {
    match to_osc_type(&Arg::Int(i)) {
        OscType::Int(r) => r,
        _ => panic!("no integer"),
    }
}

#[test]
fn adapter_has_its_name() {
    assert_eq!(ADAPTER_ID, "osc");
}

#[test]
fn arguments_take_their_osc_form() {
    assert!(matches!(to_osc_type(&Arg::Bool(true)), OscType::Bool(true)));
    assert!(matches!(to_osc_type(&Arg::Str("hi".to_string())), OscType::Str(s) if s == "hi"));
    match to_osc_type(&Arg::Float(F64 { bits: 0.42f64.to_bits() })) {
        OscType::Float(f) => assert_eq!(f32::from_bits(f.bits), 0.42f32),
        _ => panic!("no number"),
    }
}

#[test]
fn integers_wrap_round_to_32_bits() {
    for i in [
        0i64,
        1,
        -1,
        i32::MAX as i64,
        i32::MIN as i64,
        i32::MAX as i64 + 1,
        i32::MIN as i64 - 1,
        1 << 32,
        (1 << 32) + 5,
        i64::MAX,
        i64::MIN,
        -4294967297,
    ] {
        assert_eq!(sent_int(i), i as i32, "{i}");
    }
    assert_eq!(sent_int(2147483648), -2147483648);
}

#[test]
fn batch_comes_to_one_packet_per_message_in_order() {
    let batch = vec![
        BridgeMessage::new("/a".to_string(), vec![Arg::Int(1), Arg::Bool(false)]),
        BridgeMessage::new("/b".to_string(), vec![]),
    ];
    let out = deliver(&batch);
    assert_eq!(out.len(), 2);
    assert_eq!(out[0].addr, "/a");
    assert_eq!(out[0].args.len(), 2);
    assert!(matches!(out[0].args[0], OscType::Int(1)));
    assert!(matches!(out[0].args[1], OscType::Bool(false)));
    assert_eq!(out[1].addr, "/b");
    assert!(out[1].args.is_empty());
    assert!(deliver(&vec![]).is_empty());
}

#[test]
fn packets_of_a_frame_are_well_formed_osc() {
    let frame = parse(br#"{"osc": {"address": "/a", "args": [1, 0.5, true, "x"]}}"#).unwrap();
    let messages = map_inbound(&frame, &Default::default());
    let sent = to_osc_message(&messages[0]);
    let args = sent
        .args
        .iter()
        .map(|a| match a {
            OscType::Bool(b) => rosc::OscType::Bool(*b),
            OscType::Int(i) => rosc::OscType::Int(*i),
            OscType::Float(f) => rosc::OscType::Float(f32::from_bits(f.bits)),
            OscType::Str(s) => rosc::OscType::String(s.clone()),
        })
        .collect();
    let packet = rosc::OscPacket::Message(rosc::OscMessage { addr: sent.addr.clone(), args });
    let bytes = rosc::encoder::encode(&packet).unwrap();
    assert_eq!(
        bytes,
        b"/a\0\0,ifTs\0\0\0\x00\x00\x00\x01\x3f\x00\x00\x00x\0\0\0".to_vec()
    );
}
