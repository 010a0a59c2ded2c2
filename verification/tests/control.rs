use pieeg_local_bridge::body::Body;
use pieeg_local_bridge::config::{Config, OscConfig};
use pieeg_local_bridge::control::{
    codes_match, decided, disconnect, forward_frame, gathering_complete, generate_pairing_code,
    health, osc_updated, pair, pair_with_code, pairing_code_of, regenerate, signal_step, status,
    take_signal_offer, update_osc, usable_origins, OscReq, Reply, SignalEvent, SignalStep,
    CODE_CHARS, GATHER_LIMIT_MS, GATHER_PAUSE_MS,
};
use pieeg_local_bridge::state::{Discovered, Status};
use pieeg_local_bridge::transport::offer::Description;
use pieeg_local_bridge::transport::peer::build_peer_info;

const OFFER: &str = "v=0\r\no=- 1 2 IN IP4 127.0.0.1\r\ns=-\r\nt=0 0\r\n";

fn entry<'a>(body: &'a Body, name: &str) -> Option<&'a Body> {
    match body {
        Body::Object(entries) => entries.iter().find(|e| e.0 == name).map(|e| &e.1),
        _ => None,
    }
}

fn number(body: &Body, name: &str) -> u64 {
    match entry(body, name) {
        Some(Body::Natural(n)) => *n,
        _ => panic!("no number"),
    }
}

fn list<'a>(body: &'a Body, name: &str) -> &'a Vec<Body> {
    match entry(body, name) {
        Some(Body::Array(items)) => items,
        _ => panic!("no list"),
    }
}

fn text<'a>(body: &'a Body, name: &str) -> &'a str {
    match entry(body, name) {
        Some(Body::Text(s)) => s,
        _ => panic!("no text"),
    }
}

fn is_ok(reply: &Reply) -> bool {
    reply.status == 200 && matches!(entry(&reply.body, "ok"), Some(Body::Bool(true)))
}

fn is_error(reply: &Reply, status: u16, message: &str) -> bool {
    reply.status == status && text(&reply.body, "error") == message
}

fn no_change() -> OscReq {
    OscReq { enabled: None, host: None, port: None, prefix: None, flatten: None }
}

#[test]
fn pairing_codes_have_six_clear_characters() {
    let mut seen = Vec::new();
    for _ in 0..200 {
        let code = generate_pairing_code();
        assert_eq!(code.chars().count(), 6);
        assert!(code.chars().all(|c| c.is_ascii_uppercase() || c.is_ascii_digit()));
        assert!(!code.contains(|c| "O0I1".contains(c)));
        assert!(codes_match(&code, &code));
        if !seen.contains(&code) {
            seen.push(code);
        }
    }
    assert!(seen.len() > 150);
}

#[test]
fn drawn_numbers_pick_the_characters() {
    assert_eq!(pairing_code_of(&vec![0, 7, 8, 23, 24, 31]), "AHJZ29");
    assert_eq!(pairing_code_of(&vec![]), "");
    assert_eq!(CODE_CHARS.len(), 32);
}

#[test]
fn neither_case_nor_white_space_matters_in_a_code() {
    assert!(codes_match("khsp3w", "KHSP3W"));
    assert!(codes_match(" \tKhSp3W\n", "khsp3w"));
    assert!(codes_match("stra\u{df}e", "STRASSE"));
    assert!(!codes_match("KHSP3", "KHSP3W"));
    assert!(!codes_match("KHSP3W", "KHSP3X"));
    // White space in the code that is expected does matter.
    assert!(!codes_match("A", "A "));
}

#[test]
fn peer_with_the_right_code_is_taken_up() {
    let mut status = Status::with_code("KHSP3W".to_string());
    assert!(pair_with_code(" khsp3w ".to_string(), &mut status).is_none());
    assert!(status.paired);
    assert_eq!(status.session_id, Some(" khsp3w ".to_string()));
    assert_eq!(status.pairing_code, "KHSP3W");
    assert!(!status.connected);
}

#[test]
fn peer_with_a_wrong_code_is_refused() {
    let mut status = Status::with_code("KHSP3W".to_string());
    let reply = pair_with_code("KHSP3X".to_string(), &mut status).unwrap();
    assert!(is_error(&reply, 403, "invalid pairing code"));
    assert!(!status.paired);
    assert_eq!(status.session_id, None);

    let reply = pair(false, "x".to_string(), &mut status).unwrap();
    assert!(is_error(&reply, 403, "invalid pairing code"));
    assert!(pair(true, "x".to_string(), &mut status).is_none());
    assert!(status.paired);
}

#[test]
fn requests_are_answered() {
    let reply = health();
    assert!(is_ok(&reply));
    assert_eq!(text(&reply.body, "app"), "pieeg-local-bridge");
    assert!(is_ok(&regenerate(true)));
    assert!(is_error(&regenerate(false), 500, "orchestrator unavailable"));
    assert!(is_ok(&disconnect()));
    assert!(is_ok(&decided(true)));
    assert!(is_error(&decided(false), 409, "no pending request"));
}

#[test]
fn changes_to_the_adapter_leave_the_rest() {
    let mut cfg = Config::with_defaults();
    cfg.session_id = Some("S".to_string());
    update_osc(&mut cfg, OscReq { port: Some(7000), enabled: Some(false), ..no_change() });
    assert_eq!(cfg.osc.port, 7000);
    assert!(!cfg.osc.enabled);
    assert_eq!(cfg.osc.host, "127.0.0.1");
    assert_eq!(cfg.osc.prefix, "/pieeg");
    assert!(cfg.osc.flatten);
    assert_eq!(cfg.session_id, Some("S".to_string()));
    assert_eq!(cfg.control_port, 47800);

    update_osc(
        &mut cfg,
        OscReq {
            host: Some("10.0.0.1".to_string()),
            prefix: Some("/x".to_string()),
            flatten: Some(false),
            ..no_change()
        },
    );
    assert_eq!(cfg.osc.host, "10.0.0.1");
    assert_eq!(cfg.osc.prefix, "/x");
    assert!(!cfg.osc.flatten);
    assert_eq!(cfg.osc.port, 7000);
}

#[test]
fn empty_request_changes_nothing() {
    let mut cfg = Config::with_defaults();
    update_osc(&mut cfg, no_change());
    assert!(cfg.osc.enabled && cfg.osc.flatten);
    assert_eq!(cfg.osc.port, 9000);
}

#[test]
fn same_request_again_changes_nothing_more() {
    let request = || OscReq {
        enabled: Some(false),
        host: Some("10.0.0.1".to_string()),
        port: Some(1),
        prefix: Some("/x".to_string()),
        flatten: Some(false),
    };
    let mut once = Config::with_defaults();
    update_osc(&mut once, request());
    let mut twice = Config::with_defaults();
    update_osc(&mut twice, request());
    update_osc(&mut twice, request());
    assert_eq!(format!("{once:?}"), format!("{twice:?}"));
}

#[test]
fn origins_that_fit_no_header_are_passed_over() {
    let allowed: Vec<String> = [
        "https://a.example",
        "bad\norigin",
        "",
        "tab\there",
        "del\u{7f}",
        "https://\u{fc}.example",
    ]
    .iter()
    .map(|s| s.to_string())
    .collect();
    let usable = usable_origins(&allowed);
    assert_eq!(usable, vec!["https://a.example", "", "tab\there", "https://\u{fc}.example"]);
    for origin in &allowed {
        assert_eq!(usable.contains(origin), origin.parse::<axum::http::HeaderValue>().is_ok());
    }
}

#[test]
fn gathering_is_over_when_its_state_says_so() {
    assert!(gathering_complete("Complete"));
    assert!(gathering_complete("GatheringComplete!"));
    assert!(!gathering_complete("Gathering"));
    assert!(!gathering_complete("complete"));
    assert!(!gathering_complete(""));
    assert_eq!((GATHER_LIMIT_MS, GATHER_PAUSE_MS), (5000, 100));
}

#[test]
fn local_peer_is_answered_step_by_step() {
    let mut step = SignalStep::OpenPeer;
    step = signal_step(OFFER, step, SignalEvent::Done);
    assert!(matches!(&step, SignalStep::SetRemote(d) if d.sdp == OFFER));
    step = signal_step(OFFER, step, SignalEvent::Done);
    assert!(matches!(step, SignalStep::CreateAnswer));
    step = signal_step(OFFER, step, SignalEvent::Done);
    assert!(matches!(step, SignalStep::SetLocal));
    step = signal_step(OFFER, step, SignalEvent::Done);
    assert!(matches!(step, SignalStep::Gather));
    step = signal_step(OFFER, step, SignalEvent::Done);
    assert!(matches!(step, SignalStep::ReadLocal));
    step = signal_step(OFFER, step, SignalEvent::Answer("v=0".to_string()));
    match step {
        SignalStep::Respond(reply) => {
            assert_eq!(reply.status, 200);
            assert_eq!(text(&reply.body, "type"), "answer");
            assert_eq!(text(&reply.body, "sdp"), "v=0");
        }
        _ => panic!("no answer"),
    }
}

#[test]
fn failed_steps_are_answered_with_their_reason() {
    for (step, status, message) in [
        (SignalStep::OpenPeer, 500, "failed to create peer connection: why"),
        (SignalStep::SetRemote(Description::default()), 400, "invalid SDP offer: why"),
        (SignalStep::CreateAnswer, 500, "failed to create answer: why"),
        (SignalStep::SetLocal, 500, "failed to set local description: why"),
    ] {
        match signal_step(OFFER, step, SignalEvent::Failed("why".to_string())) {
            SignalStep::Respond(reply) => assert!(is_error(&reply, status, message)),
            _ => panic!("no answer"),
        }
    }
}

#[test]
fn unreadable_offer_of_a_local_peer_is_refused() {
    let fault = Description::offer("not an offer".to_string()).unwrap_err().to_string();
    match signal_step("not an offer", SignalStep::OpenPeer, SignalEvent::Done) {
        SignalStep::Respond(reply) => {
            assert!(is_error(&reply, 400, &format!("invalid SDP offer: {fault}")))
        }
        _ => panic!("no answer"),
    }
    assert!(matches!(
        take_signal_offer(Ok(Description::default())),
        SignalStep::SetRemote(_)
    ));
    match take_signal_offer(Err("why".to_string())) {
        SignalStep::Respond(reply) => assert!(is_error(&reply, 400, "invalid SDP offer: why")),
        _ => panic!("no answer"),
    }
}

#[test]
fn changed_adapter_is_reported() {
    let mut osc = OscConfig::default();
    osc.port = 7000;
    osc.flatten = false;
    let reply = osc_updated(&osc);
    assert!(is_ok(&reply));
    let shown = entry(&reply.body, "osc").unwrap();
    assert!(matches!(entry(shown, "enabled"), Some(Body::Bool(true))));
    assert_eq!(text(shown, "host"), "127.0.0.1");
    assert_eq!(number(shown, "port"), 7000);
    assert_eq!(text(shown, "prefix"), "/pieeg");
    assert!(matches!(entry(shown, "flatten"), Some(Body::Bool(false))));
}

#[test]
fn state_of_the_bridge_is_reported() {
    let mut now = Status::with_code("KHSP3W".to_string());
    now.frames_in = u64::MAX;
    now.last_frame_ms = Some(5);
    now.pending_peer = Some(build_peer_info(
        "a=candidate:1 1 udp 1 10.0.0.9 9 typ host",
        None,
        6,
    ));
    now.channel_opened();
    let mut cfg = Config::with_defaults();
    cfg.allowed_origins = vec!["https://a".to_string()];
    let found = vec![Discovered {
        name: "App".to_string(),
        host: "10.0.0.1".to_string(),
        port: 9001,
    }];
    let reply = status(&now, &cfg, &found);
    assert_eq!(reply.status, 200);

    let shown = entry(&reply.body, "status").unwrap();
    assert_eq!(text(shown, "pairing_code"), "KHSP3W");
    assert!(matches!(entry(shown, "connected"), Some(Body::Bool(true))));
    assert!(matches!(entry(shown, "session_id"), Some(Body::Null)));
    assert_eq!(number(shown, "frames_in"), u64::MAX);
    assert_eq!(number(shown, "messages_out"), 0);
    assert_eq!(number(shown, "last_frame_ms"), 5);
    let peer = entry(shown, "pending_peer").unwrap();
    assert!(matches!(entry(peer, "name"), Some(Body::Null)));
    assert!(matches!(&list(peer, "ip_addresses")[..], [Body::Text(a)] if a == "10.0.0.9"));
    assert!(matches!(&list(peer, "candidate_types")[..], [Body::Text(t)] if t == "host"));
    assert_eq!(number(peer, "requested_ms"), 6);

    let shown = entry(&reply.body, "config").unwrap();
    assert_eq!(number(shown, "control_port"), 47800);
    assert!(matches!(&list(shown, "allowed_origins")[..], [Body::Text(o)] if o == "https://a"));
    assert_eq!(number(entry(shown, "osc").unwrap(), "port"), 9000);

    let found = list(&reply.body, "discovered");
    assert_eq!(found.len(), 1);
    assert_eq!(text(&found[0], "name"), "App");
    assert_eq!(text(&found[0], "host"), "10.0.0.1");
    assert_eq!(number(&found[0], "port"), 9001);

    let blank = status(&Status::default(), &cfg, &vec![]);
    let shown = entry(&blank.body, "status").unwrap();
    assert!(matches!(entry(shown, "pending_peer"), Some(Body::Null)));
    assert!(matches!(entry(shown, "last_frame_ms"), Some(Body::Null)));
}

#[test]
fn another_pairing_code_is_refused() {
    let mut waiting = Status::with_code("NEW234".to_string());
    assert!(pair_with_code("KHSP3W".to_string(), &mut waiting).is_some());
    assert!(pair_with_code("NEW234".to_string(), &mut waiting).is_none());
}

#[test]
fn frames_of_a_local_peer_are_forwarded() {
    let mut osc = OscConfig::default();
    let out = forward_frame(br#"{"a": true}"#, &osc).unwrap();
    assert_eq!(out.len(), 1);
    assert_eq!(out[0].address, "/pieeg/a");
    assert!(forward_frame(b"no json", &osc).is_none());
    osc.enabled = false;
    assert!(forward_frame(br#"{"a": true}"#, &osc).is_some());
}
