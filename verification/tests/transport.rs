use pieeg_local_bridge::config::OscConfig;
use pieeg_local_bridge::state::Status;
use pieeg_local_bridge::transport::handshake::{
    accepts, answer_url, fetch_offer, may_carry_offer, offer_url, post_answer, session_step,
    take_offer, Event, OfferResp, Poll, Prompt, SessionPlan, Step, CONFIRM_TIMEOUT_MS,
};
use pieeg_local_bridge::transport::offer::Description;
use pieeg_local_bridge::transport::peer::{build_peer_info, PeerMeta};
use pieeg_local_bridge::transport::webrtc::{
    after_session, count_frame, create_session, handle_frame, is_success, on_peer_state,
    session_url, AfterSession, Backoff, CreateSessionResp, IceServer, IceServerCfg, PeerState,
    SessionEnd, SessionReply, StringOrVec,
};

const SDP: &str = "v=0\r\n\
a=candidate:1 1 udp 2122260223 192.168.1.5 54321 typ host generation 0\r\n\
a=candidate:2 1 udp 1686052607 203.0.113.7 54321 typ srflx raddr 0.0.0.0\r\n\
  a=candidate:3 1 udp 2122260223 192.168.1.5 9 typ host\r\n\
a=candidate:4 1 udp 1 4f2d.local 54322 typ host\r\n\
a=candidate:5 1 tcp 1 10.0.0.9 9 typ\r\n\
a=candidate:6 1 tcp\r\n\
a=mid:0\r\n";

const OFFER: &str = "v=0\r\no=- 1 2 IN IP4 127.0.0.1\r\ns=-\r\nt=0 0\r\n\
a=candidate:1 1 udp 1 192.168.1.5 9 typ host\r\n";

fn meta(name: &str) -> PeerMeta {
    PeerMeta {
        name: Some(name.to_string()),
        origin: Some("https://a.example".to_string()),
        user_agent: None,
    }
}

fn plan(ice_servers: Vec<IceServer>) -> SessionPlan {
    SessionPlan {
        signaling_url: "https://s.example//".to_string(),
        session_id: "KHSP3W".to_string(),
        ice_servers,
    }
}

fn why(step: Step) -> String {
    match step {
        Step::Finished(SessionEnd::Dropped(Some(e))) => e,
        _ => panic!("not dropped"),
    }
}

#[test]
fn peer_is_described_by_its_offer() {
    let info = build_peer_info(SDP, Some(meta("Lab")), 42);
    assert_eq!(info.name, Some("Lab".to_string()));
    assert_eq!(info.origin, Some("https://a.example".to_string()));
    assert_eq!(info.user_agent, None);
    assert_eq!(info.ip_addresses, vec!["192.168.1.5", "203.0.113.7", "10.0.0.9"]);
    assert_eq!(info.candidate_types, vec!["host", "srflx"]);
    assert_eq!(info.requested_ms, 42);
}

#[test]
fn peer_that_says_nothing_is_described_by_nothing() {
    let info = build_peer_info("", Some(meta(" \t")), 0);
    assert_eq!(info.name, None);
    assert_eq!(info.origin, Some("https://a.example".to_string()));
    assert!(info.ip_addresses.is_empty());
    assert!(info.candidate_types.is_empty());
    let info = build_peer_info("m=x\n", None, 7);
    assert_eq!(info.origin, None);
    assert_eq!(info.requested_ms, 7);
}

#[test]
fn session_is_asked_for_below_the_endpoint() {
    assert_eq!(session_url("https://s.example//"), "https://s.example/v1/webrtc/session");
    assert_eq!(offer_url("b", "S"), "b/v1/signal/S/offer");
    assert_eq!(answer_url("b", "S"), "b/v1/signal/S/answer");
}

#[test]
fn created_session_carries_code_and_servers() {
    let body = CreateSessionResp {
        code: "KHSP3W".to_string(),
        ice_servers: vec![
            IceServerCfg {
                urls: StringOrVec::One("stun:a".to_string()),
                username: None,
                credential: None,
            },
            IceServerCfg {
                urls: StringOrVec::Many(vec!["turn:b".to_string(), "turn:c".to_string()]),
                username: Some("u".to_string()),
                credential: Some("p".to_string()),
            },
        ],
        expires_at: 99,
    };
    let info =
        create_session(SessionReply::Answered(201, "201 Created".to_string(), Ok(body))).unwrap();
    assert_eq!(info.code, "KHSP3W");
    assert_eq!(info.expires_at, 99);
    assert_eq!(info.ice_servers.len(), 2);
    assert_eq!(info.ice_servers[0].urls, vec!["stun:a"]);
    assert_eq!(info.ice_servers[0].username, "");
    assert_eq!(info.ice_servers[0].credential, "");
    assert_eq!(info.ice_servers[1].urls, vec!["turn:b", "turn:c"]);
    assert_eq!(info.ice_servers[1].username, "u");
    assert_eq!(info.ice_servers[1].credential, "p");
}

#[test]
fn session_that_is_not_created_has_a_reason() {
    assert_eq!(create_session(SessionReply::Unsent("offline".to_string())).err().unwrap(), "offline");
    assert_eq!(
        create_session(SessionReply::Answered(
            503,
            "503 Service Unavailable".to_string(),
            Err("no body".to_string()),
        ))
        .err()
        .unwrap(),
        "create session failed (503 Service Unavailable)"
    );
    assert_eq!(
        create_session(SessionReply::Answered(200, "200 OK".to_string(), Err("eof".to_string())))
            .err()
            .unwrap(),
        "eof"
    );
}

#[test]
fn success_is_what_http_says() {
    for status in 100u16..1000 {
        let code = axum::http::StatusCode::from_u16(status).unwrap();
        assert_eq!(is_success(status), code.is_success());
    }
    assert!(may_carry_offer(200));
    assert!(!may_carry_offer(204));
    assert!(!may_carry_offer(404));
}

#[test]
fn offer_is_awaited_for_three_minutes() {
    let offer = |sdp: &str| Some(OfferResp { sdp: sdp.to_string(), peer: None });
    assert!(matches!(fetch_offer(0, 200, offer("v=0")), Poll::Found(s, None) if s == "v=0"));
    assert!(matches!(fetch_offer(179, 200, offer("v=0")), Poll::Found(_, _)));
    assert!(matches!(fetch_offer(0, 204, offer("v=0")), Poll::Again(1000)));
    assert!(matches!(fetch_offer(0, 404, None), Poll::Again(1000)));
    assert!(matches!(fetch_offer(0, 200, None), Poll::Again(1000)));
    assert!(matches!(fetch_offer(178, 200, offer("")), Poll::Again(1000)));
    assert!(matches!(
        fetch_offer(179, 404, None),
        Poll::GiveUp(1000, e) if e == "timed out waiting for offer"
    ));
}

#[test]
fn refused_answer_has_a_reason() {
    assert_eq!(post_answer(200, "200 OK"), Ok(()));
    assert_eq!(
        post_answer(410, "410 Gone"),
        Err("signaling rejected answer (410 Gone)".to_string())
    );
}

#[test]
fn only_a_timely_consent_accepts() {
    assert!(accepts(Prompt::Answered(true)));
    assert!(!accepts(Prompt::Answered(false)));
    assert!(!accepts(Prompt::Withdrawn));
    assert!(!accepts(Prompt::TimedOut));
    assert_eq!(CONFIRM_TIMEOUT_MS, 120_000);
}

#[test]
fn session_runs_through_its_steps() {
    let plan = plan(vec![]);
    let mut status = Status::with_code("KHSP3W".to_string());
    let mut step = session_step(&plan, Step::RegisterCodecs, Event::Done, 5, &mut status);
    match &step {
        Step::OpenPeer(servers) => {
            assert_eq!(servers.len(), 1);
            assert_eq!(servers[0].urls, vec!["stun:stun.l.google.com:19302"]);
        }
        _ => panic!("no servers"),
    }
    step = session_step(&plan, step, Event::Done, 5, &mut status);
    assert!(matches!(step, Step::BuildClient));
    step = session_step(&plan, step, Event::Done, 5, &mut status);
    assert!(
        matches!(&step, Step::FetchOffer(u) if u == "https://s.example/v1/signal/KHSP3W/offer")
    );
    step = session_step(
        &plan,
        step,
        Event::Offer(OFFER.to_string(), Some(meta("Lab"))),
        5,
        &mut status,
    );
    assert!(matches!(&step, Step::Confirm(s) if s == OFFER));
    assert!(status.awaiting_confirmation);
    assert_eq!(status.pending_peer.as_ref().unwrap().name, Some("Lab".to_string()));
    assert_eq!(status.pending_peer.as_ref().unwrap().requested_ms, 5);
    step = session_step(&plan, step, Event::Decided(true), 5, &mut status);
    assert!(matches!(&step, Step::SetRemote(d) if d.sdp == OFFER));
    assert!(status.confirmed);
    assert!(!status.awaiting_confirmation);
    assert!(status.pending_peer.is_none());
    step = session_step(&plan, step, Event::Done, 5, &mut status);
    assert!(matches!(step, Step::CreateAnswer));
    step = session_step(&plan, step, Event::Done, 5, &mut status);
    assert!(matches!(step, Step::SetLocal));
    step = session_step(&plan, step, Event::Done, 5, &mut status);
    assert!(matches!(step, Step::ReadLocal));
    step = session_step(&plan, step, Event::Local(Some("answer".to_string())), 5, &mut status);
    assert!(matches!(
        &step,
        Step::PostAnswer(u, s)
            if u == "https://s.example/v1/signal/KHSP3W/answer" && s == "answer"
    ));
    step = session_step(&plan, step, Event::Done, 5, &mut status);
    assert!(matches!(step, Step::AwaitEnd));
    step = session_step(&plan, step, Event::Ended(Some(SessionEnd::Ended)), 5, &mut status);
    assert!(matches!(step, Step::Close(SessionEnd::Ended)));
    step = session_step(&plan, step, Event::Done, 5, &mut status);
    assert!(matches!(step, Step::Finished(SessionEnd::Ended)));
}

#[test]
fn servers_of_the_session_are_used() {
    let server = IceServer {
        urls: vec!["turn:b".to_string()],
        username: "u".to_string(),
        credential: "p".to_string(),
    };
    let mut status = Status::default();
    match session_step(&plan(vec![server]), Step::RegisterCodecs, Event::Done, 0, &mut status) {
        Step::OpenPeer(servers) => {
            assert_eq!(servers.len(), 1);
            assert_eq!(servers[0].urls, vec!["turn:b"]);
            assert_eq!(servers[0].username, "u");
            assert_eq!(servers[0].credential, "p");
        }
        _ => panic!("no servers"),
    }
}

#[test]
fn declined_peer_is_not_answered() {
    let mut status = Status::default();
    let step = session_step(
        &plan(vec![]),
        Step::Confirm("v=0".to_string()),
        Event::Decided(false),
        0,
        &mut status,
    );
    assert!(matches!(step, Step::Finished(SessionEnd::Rejected)));
    assert!(!status.confirmed);
}

#[test]
fn confirmed_session_does_not_ask_again() {
    let mut status = Status::default();
    status.confirmed = true;
    let step = session_step(
        &plan(vec![]),
        Step::FetchOffer(String::new()),
        Event::Offer(OFFER.to_string(), None),
        0,
        &mut status,
    );
    assert!(matches!(step, Step::SetRemote(d) if d.sdp == OFFER));
    assert!(!status.awaiting_confirmation);
}

#[test]
fn unreadable_offer_ends_the_session() {
    let fault = Description::offer("not an offer".to_string()).unwrap_err().to_string();
    let mut status = Status::default();
    let next = session_step(
        &plan(vec![]),
        Step::Confirm("not an offer".to_string()),
        Event::Decided(true),
        0,
        &mut status,
    );
    assert_eq!(why(next), format!("bad offer: {fault}"));
    assert!(status.confirmed);
    let next = session_step(
        &plan(vec![]),
        Step::FetchOffer(String::new()),
        Event::Offer("not an offer".to_string(), None),
        0,
        &mut status,
    );
    assert_eq!(why(next), format!("bad offer: {fault}"));

    assert!(matches!(take_offer(Ok(Description::default())), Step::SetRemote(_)));
    assert_eq!(why(take_offer(Err("why".to_string()))), "bad offer: why");
}

#[test]
fn opened_channel_is_noted() {
    let mut status = Status::with_code("KHSP3W".to_string());
    status.channel_opened();
    assert!(status.connected);
    assert_eq!(status.pairing_code, "KHSP3W");
    assert!(!status.paired && !status.ended);
}

#[test]
fn broken_sessions_name_their_stage() {
    let mut status = Status::default();
    for (step, message) in [
        (Step::RegisterCodecs, "media engine: e"),
        (Step::OpenPeer(vec![]), "peer connection: e"),
        (Step::BuildClient, "http client: e"),
        (Step::FetchOffer(String::new()), "fetch offer: e"),
        (Step::SetRemote(Description::default()), "set remote: e"),
        (Step::CreateAnswer, "create answer: e"),
        (Step::SetLocal, "set local: e"),
        (Step::PostAnswer(String::new(), String::new()), "post answer: e"),
    ] {
        let next =
            session_step(&plan(vec![]), step, Event::Failed("e".to_string()), 0, &mut status);
        assert_eq!(why(next), message);
    }
    let next = session_step(&plan(vec![]), Step::ReadLocal, Event::Local(None), 0, &mut status);
    assert_eq!(why(next), "no local description");
    let next = session_step(&plan(vec![]), Step::AwaitEnd, Event::Ended(None), 0, &mut status);
    assert!(matches!(next, Step::Close(SessionEnd::Dropped(None))));
}

#[test]
fn states_of_the_peer_connection_are_noted() {
    let mut status = Status::default();
    status.ended = true;
    status.last_error = Some("old".to_string());
    assert!(on_peer_state(PeerState::Connected, &mut status).is_none());
    assert!(status.connected && !status.ended && status.last_error.is_none());
    for state in [PeerState::Disconnected, PeerState::Failed] {
        assert!(matches!(
            on_peer_state(state, &mut status),
            Some(SessionEnd::Dropped(Some(e))) if e == "peer connection lost"
        ));
    }
    assert!(matches!(on_peer_state(PeerState::Closed, &mut status), Some(SessionEnd::Ended)));
    assert!(on_peer_state(PeerState::Other, &mut status).is_none());
    assert!(status.connected);
}

#[test]
fn waits_double_up_to_the_bound() {
    let mut backoff = Backoff::new();
    let waits: Vec<u64> = (0..8).map(|_| backoff.next()).collect();
    assert_eq!(waits, vec![500, 1000, 2000, 4000, 8000, 10000, 10000, 10000]);
}

#[test]
fn dropped_session_is_taken_up_again_where_wanted() {
    let mut backoff = Backoff::new();
    let mut status = Status::default();
    status.connected = true;
    status.confirmed = true;
    let lost = || SessionEnd::Dropped(Some("lost".to_string()));
    assert!(matches!(
        after_session(lost(), true, &mut backoff, &mut status),
        AfterSession::Retry(500)
    ));
    assert!(matches!(
        after_session(lost(), true, &mut backoff, &mut status),
        AfterSession::Retry(1000)
    ));
    assert!(!status.connected && !status.ended && status.confirmed);
    assert_eq!(status.last_error, Some("lost".to_string()));
    assert!(matches!(
        after_session(lost(), false, &mut backoff, &mut status),
        AfterSession::Stop
    ));
}

#[test]
fn session_that_is_over_stays_over() {
    let mut backoff = Backoff::new();
    let mut status = Status::default();
    status.connected = true;
    assert!(matches!(
        after_session(SessionEnd::Ended, true, &mut backoff, &mut status),
        AfterSession::Stop
    ));
    assert!(status.ended && !status.connected);
    assert_eq!(status.last_error, None);

    let mut status = Status::default();
    status.awaiting_confirmation = true;
    status.pending_peer = Some(build_peer_info("", None, 0));
    assert!(matches!(
        after_session(SessionEnd::Rejected, true, &mut backoff, &mut status),
        AfterSession::Stop
    ));
    assert!(status.ended && !status.awaiting_confirmation && status.pending_peer.is_none());
    assert_eq!(status.last_error, Some("connection declined".to_string()));
}

#[test]
fn frames_are_mapped_and_counted() {
    let mut osc = OscConfig::default();
    let mut status = Status::default();
    let out = handle_frame(br#"{"a": [1, 2], "t": 3}"#, &osc);
    count_frame(&mut status, &out, 77);
    assert_eq!(out.unwrap().len(), 2);
    assert_eq!((status.frames_in, status.messages_out), (1, 2));
    assert_eq!(status.last_frame_ms, Some(77));

    let out = handle_frame(b"{}", &osc);
    count_frame(&mut status, &out, 78);
    assert_eq!((status.frames_in, status.messages_out), (2, 2));
    assert_eq!(status.last_frame_ms, Some(78));

    let out = handle_frame(b"{", &osc);
    assert!(out.is_none());
    count_frame(&mut status, &out, 79);
    osc.enabled = false;
    let out = handle_frame(br#"{"a": 1}"#, &osc);
    assert!(out.is_none());
    count_frame(&mut status, &out, 80);
    assert_eq!((status.frames_in, status.messages_out), (2, 2));
    assert_eq!(status.last_frame_ms, Some(78));
}
