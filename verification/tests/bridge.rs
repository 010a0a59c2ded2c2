use pieeg_local_bridge::bridge::{
    apply_overrides, first_command, menu_action, opens_ui, share_session, ui_url, Action, Bridge,
    Event, MenuAction, Overrides, Share,
};
use pieeg_local_bridge::config::Config;
use pieeg_local_bridge::state::{ConnectionStatus, Ctrl, Status};
use pieeg_local_bridge::transport::webrtc::{IceServer, SessionInfo};

fn bridge() -> Bridge {
    let mut status = Status::with_code("KHSP3W".to_string());
    status.paired = true;
    status.connected = true;
    status.confirmed = true;
    status.frames_in = 3;
    Bridge { config: Config::with_defaults(), status, ice_servers: Vec::new() }
}

fn share(from_cloud: bool) -> Share {
    Share {
        code: "NEW234".to_string(),
        ice_servers: vec![IceServer {
            urls: vec!["stun:a".to_string()],
            username: String::new(),
            credential: String::new(),
        }],
        from_cloud,
    }
}

#[test]
fn command_line_overrides_the_configuration() {
    let mut cfg = Config::with_defaults();
    cfg.allowed_origins = vec!["https://a".to_string()];
    apply_overrides(
        &mut cfg,
        Overrides {
            port: Some(1234),
            signaling_url: Some("https://s".to_string()),
            allow_origin: vec![
                "https://b".to_string(),
                "https://a".to_string(),
                "https://b".to_string(),
            ],
        },
    );
    assert_eq!(cfg.control_port, 1234);
    assert_eq!(cfg.signaling_url, "https://s");
    assert_eq!(cfg.allowed_origins, vec!["https://a", "https://b"]);
    assert_eq!(cfg.osc.port, 9000);

    let mut cfg = Config::with_defaults();
    apply_overrides(&mut cfg, Overrides { port: None, signaling_url: None, allow_origin: vec![] });
    assert_eq!(cfg.control_port, 47800);
    assert_eq!(cfg.signaling_url, "https://pieeg-cloud.fly.dev");
}

#[test]
fn control_page_is_opened_unless_it_is_not_wanted() {
    assert_eq!(ui_url(47800), "http://127.0.0.1:47800");
    assert!(opens_ui(false, &None));
    assert!(!opens_ui(true, &None));
    assert!(!opens_ui(false, &Some("S".to_string())));
}

#[test]
fn session_is_shared_with_or_without_the_cloud() {
    let info = SessionInfo { code: "CLOUD2".to_string(), ice_servers: vec![], expires_at: 0 };
    let shared = share_session(Ok(info));
    assert_eq!(shared.code, "CLOUD2");
    assert!(shared.from_cloud);
    let shared = share_session(Err("offline".to_string()));
    assert_eq!(shared.code.len(), 6);
    assert!(!shared.from_cloud);
    assert!(shared.ice_servers.is_empty());
}

#[test]
fn bridge_starts_with_a_session_where_it_has_one() {
    assert!(matches!(
        first_command(Some("S".to_string()), &share(true)),
        Some(Ctrl::Connect(s)) if s == "S"
    ));
    assert!(matches!(
        first_command(None, &share(true)),
        Some(Ctrl::Connect(s)) if s == "NEW234"
    ));
    assert!(first_command(None, &share(false)).is_none());
}

#[test]
fn connecting_takes_up_a_session() {
    let mut b = bridge();
    let actions = b.step(Event::Command(Ctrl::Connect("S".to_string())));
    assert_eq!(actions.len(), 3);
    assert!(matches!(actions[0], Action::StopTransport));
    assert!(matches!(actions[1], Action::SaveConfig));
    assert!(matches!(&actions[2], Action::StartTransport(s) if s == "S"));
    assert_eq!(b.config.session_id, Some("S".to_string()));
    assert_eq!(b.status.pairing_code, "KHSP3W");
    assert_eq!(b.status.session_id, Some("S".to_string()));
    assert!(b.status.paired && !b.status.connected && !b.status.confirmed);
    assert_eq!(b.status.frames_in, 0);
}

#[test]
fn disconnecting_gives_up_the_session() {
    let mut b = bridge();
    b.config.session_id = Some("S".to_string());
    let actions = b.step(Event::Command(Ctrl::Disconnect));
    assert_eq!(actions.len(), 2);
    assert!(matches!(actions[0], Action::StopTransport));
    assert!(matches!(actions[1], Action::SaveConfig));
    assert_eq!(b.config.session_id, None);
    assert_eq!(b.status.pairing_code, "");
    assert!(!b.status.paired);
}

#[test]
fn new_destination_is_used() {
    let mut b = bridge();
    b.config.osc.port = 7000;
    let actions = b.step(Event::Command(Ctrl::ReloadOsc));
    assert_eq!(actions.len(), 1);
    assert!(matches!(&actions[0], Action::Retarget(h, 7000) if h == "127.0.0.1"));
    assert!(b.status.connected);
}

#[test]
fn new_code_revokes_the_old_one() {
    let mut b = bridge();
    let actions = b.step(Event::Command(Ctrl::RegenerateCode));
    assert_eq!(actions.len(), 2);
    assert!(matches!(actions[0], Action::StopTransport));
    assert!(
        matches!(&actions[1], Action::CreateSession(u) if u == "https://pieeg-cloud.fly.dev")
    );
    let actions = b.step(Event::Shared(share(true)));
    assert_eq!(actions.len(), 1);
    assert!(matches!(&actions[0], Action::Send(Ctrl::Connect(s)) if s == "NEW234"));
    assert_eq!(b.status.pairing_code, "NEW234");
    assert!(!b.status.paired && !b.status.connected && !b.status.confirmed);
    assert_eq!(b.ice_servers.len(), 1);
    assert!(b.step(Event::Shared(share(false))).is_empty());
}

#[test]
fn tray_and_signals_are_heard() {
    let mut b = bridge();
    let regenerate = b.step(Event::Tray("regenerate".to_string()));
    assert!(matches!(regenerate[..], [Action::Send(Ctrl::RegenerateCode)]));
    let check = b.step(Event::Tray("check_update".to_string()));
    assert!(matches!(check[..], [Action::CheckForUpdate]));
    let quit = b.step(Event::Tray("quit".to_string()));
    assert!(matches!(quit[..], [Action::StopTransport, Action::Quit]));
    assert!(b.step(Event::Tray("other".to_string())).is_empty());
    let found = b.step(Event::UpdateFound("v1".to_string(), "https://p".to_string()));
    assert!(matches!(&found[..], [Action::OpenPage(p)] if p == "https://p"));
    let stop = b.step(Event::Interrupted);
    assert!(matches!(stop[..], [Action::StopTransport, Action::Quit]));
    assert!(matches!(b.step(Event::Abandoned)[..], [Action::Quit]));
    assert!(b.status.connected);
}

#[test]
fn menu_entries_are_understood() {
    assert!(matches!(menu_action("show"), MenuAction::OpenPage));
    assert!(matches!(menu_action("regenerate"), MenuAction::Tell(s) if s == "regenerate"));
    assert!(matches!(menu_action("update"), MenuAction::Tell(s) if s == "check_update"));
    assert!(matches!(menu_action("quit"), MenuAction::TellAndLeave(s) if s == "quit"));
    assert!(matches!(menu_action("status"), MenuAction::Ignore));
}

#[test]
fn connection_is_shown_in_the_tray() {
    let mut status = Status::default();
    assert_eq!(status.connection_status(), ConnectionStatus::Disconnected);
    status.paired = true;
    assert_eq!(status.connection_status(), ConnectionStatus::Connecting);
    status.connected = true;
    assert_eq!(status.connection_status(), ConnectionStatus::Connected);
    assert_eq!(ConnectionStatus::changed(ConnectionStatus::Connected, &status), None);
    assert_eq!(
        ConnectionStatus::changed(ConnectionStatus::Connecting, &status),
        Some(ConnectionStatus::Connected)
    );
    status.ended = true;
    assert_eq!(status.connection_status(), ConnectionStatus::Disconnected);
    assert_eq!(ConnectionStatus::Disconnected.as_str(), "● Disconnected");
    assert_eq!(ConnectionStatus::Connecting.as_str(), "◐ Connecting...");
    assert_eq!(ConnectionStatus::Connected.as_str(), "● Connected");
}
