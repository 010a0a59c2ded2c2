//! The bridge as a whole: how it starts, and how it goes from one command to the
//! next. What it cannot do itself it asks for, as a list of actions.

use crate::config::Config;
use crate::control::{
    ascii_capitals, generate_pairing_code, is_pairing_code, law_pairing_codes_are_told_apart,
};
use crate::state::{Ctrl, Status};
use crate::text::{
    concat, contains, decimal, law_new_entry_comes_last, lemma_with_new, same, to_decimal, trimmed,
    views, with_new,
};
use crate::transport::webrtc::{IceServer, SessionInfo};
use vstd::prelude::*;
use vstd::utf8::is_ascii_chars;

verus! {

/// What the command line changes of the configuration.
pub struct Overrides {
    /// The port of the control API.
    pub port: Option<u16>,
    /// The signaling endpoint.
    pub signaling_url: Option<String>,
    /// Further sites that may call the control API.
    pub allow_origin: Vec<String>,
}

/// The list with those of the new entries at its end that it does not hold yet.
pub open spec fn merged(list: Seq<Seq<char>>, new: Seq<Seq<char>>) -> Seq<Seq<char>>
    decreases new.len(),
{
    if new.len() == 0 {
        list
    } else {
        with_new(merged(list, new.drop_last()), Some(new.last()))
    }
}

/// Makes the changes that the command line asks for.
pub fn apply_overrides(cfg: &mut Config, overrides: Overrides)
    ensures
        final(cfg).control_port == match overrides.port {
            Some(p) => p,
            None => old(cfg).control_port,
        },
        final(cfg).signaling_url == match overrides.signaling_url {
            Some(url) => url,
            None => old(cfg).signaling_url,
        },
        views(final(cfg).allowed_origins@) == merged(
            views(old(cfg).allowed_origins@),
            views(overrides.allow_origin@),
        ),
        *final(cfg) == (Config {
            control_port: final(cfg).control_port,
            signaling_url: final(cfg).signaling_url,
            allowed_origins: final(cfg).allowed_origins,
            ..*old(cfg)
        }),
{
    if let Some(p) = overrides.port {
        cfg.control_port = p;
    }
    if let Some(url) = overrides.signaling_url {
        cfg.signaling_url = url;
    }
    let ghost before = views(cfg.allowed_origins@);
    let ghost new = views(overrides.allow_origin@);
    let ghost start = *cfg;
    let mut i: usize = 0;
    assert(new.take(0) == Seq::<Seq<char>>::empty());
    while i < overrides.allow_origin.len()
        invariant
            i <= overrides.allow_origin@.len(),
            new == views(overrides.allow_origin@),
            views(cfg.allowed_origins@) == merged(before, new.take(i as int)),
            *cfg == (Config { allowed_origins: cfg.allowed_origins, ..start }),
        decreases overrides.allow_origin@.len() - i,
    {
        assert(new.take(i + 1).drop_last() == new.take(i as int));
        assert(new.take(i + 1).last() == overrides.allow_origin@[i as int]@);
        let origin = &overrides.allow_origin[i];
        if !contains(&cfg.allowed_origins, origin.as_str()) {
            let ghost list = cfg.allowed_origins@;
            cfg.allowed_origins.push(origin.clone());
            assert(views(cfg.allowed_origins@) == views(list).push(origin@));
        }
        i += 1;
    }
    assert(new.take(i as int) == new);
}

/// The origins of the configuration stay, those of the command line come in, and no
/// origin comes in twice.
pub proof fn law_origins_are_merged(list: Seq<Seq<char>>, new: Seq<Seq<char>>)
    ensures
        list.no_duplicates() ==> merged(list, new).no_duplicates(),
        forall|o: Seq<char>|
            #[trigger] merged(list, new).contains(o) <==> list.contains(o) || new.contains(o),
    decreases new.len(),
{
    if new.len() > 0 {
        let rest = new.drop_last();
        law_origins_are_merged(list, rest);
        lemma_with_new(merged(list, rest), Some(new.last()));
        assert forall|o: Seq<char>| #[trigger] merged(list, new).contains(o) <==> list.contains(o)
            || new.contains(o) by {
            assert(merged(list, new).contains(o) <==> merged(list, rest).contains(o) || new.last()
                == o);
            if new.contains(o) {
                let k = choose|k: int| 0 <= k < new.len() && new[k] == o;
                if k < rest.len() {
                    assert(rest[k] == o);
                }
            }
            if rest.contains(o) {
                let k = choose|k: int| 0 <= k < rest.len() && rest[k] == o;
                assert(new[k] == o);
            }
            if new.last() == o {
                assert(new[new.len() - 1] == o);
            }
        }
    }
}

/// The address of the control page.
pub fn ui_url(port: u16) -> (r: String)
    ensures
        r@ == "http://127.0.0.1:"@ + decimal(port as nat),
{
    let number = to_decimal(port as u64);
    concat("http://127.0.0.1:", number.as_str())
}

/// Whether the control page is opened in a browser at the start: not where that is
/// switched off, and not where a session is taken up at once.
pub fn opens_ui(no_open: bool, connect: &Option<String>) -> (r: bool)
    ensures
        r == (!no_open && connect is None),
{
    !no_open && connect.is_none()
}

/// A session that can be shared.
pub struct Share {
    /// The code to share.
    pub code: String,
    /// The servers to use.
    pub ice_servers: Vec<IceServer>,
    /// Whether the signaling endpoint knows of it.
    pub from_cloud: bool,
}

/// The session to share: the one that the signaling endpoint made, or one with a code
/// of the bridge's own where it made none.
pub fn share_session(created: Result<SessionInfo, String>) -> (r: Share)
    ensures
        match created {
            Ok(info) => r.code == info.code && r.ice_servers == info.ice_servers && r.from_cloud,
            Err(_) => is_pairing_code(r.code@) && r.ice_servers@.len() == 0 && !r.from_cloud,
        },
{
    match created {
        Ok(info) => Share { code: info.code, ice_servers: info.ice_servers, from_cloud: true },
        Err(_) => Share {
            code: generate_pairing_code(),
            ice_servers: Vec::new(),
            from_cloud: false,
        },
    }
}

/// The command with which the bridge starts: to take up the session that the command
/// line names, or else the one that the signaling endpoint knows of.
pub fn first_command(connect: Option<String>, share: &Share) -> (r: Option<Ctrl>)
    ensures
        r == (match connect {
            Some(id) => Some(Ctrl::Connect(id)),
            None => if share.from_cloud {
                Some(Ctrl::Connect(share.code))
            } else {
                None
            },
        }),
{
    match connect {
        Some(id) => Some(Ctrl::Connect(id)),
        None => {
            if share.from_cloud {
                Some(Ctrl::Connect(share.code.clone()))
            } else {
                None
            }
        },
    }
}

/// What the bridge knows.
pub struct Bridge {
    /// Its configuration.
    pub config: Config,
    /// The state of its connection.
    pub status: Status,
    /// The servers that came with the session that is shared.
    pub ice_servers: Vec<IceServer>,
}

/// What happens to the bridge.
pub enum Event {
    /// It is given a command.
    Command(Ctrl),
    /// The session that it asked for is there.
    Shared(Share),
    /// An entry of the tray menu is chosen.
    Tray(String),
    /// A newer version was found: its tag and its page.
    UpdateFound(String, String),
    /// It is interrupted.
    Interrupted,
    /// Nobody is left to give it commands.
    Abandoned,
}

/// What the choice of an entry of the tray menu comes to.
pub enum MenuAction {
    /// Open the control page in a browser.
    OpenPage,
    /// Tell the bridge.
    Tell(String),
    /// Tell the bridge, and close the tray.
    TellAndLeave(String),
    /// Nothing.
    Ignore,
}

/// What the choice of the menu entry `id` comes to.
pub fn menu_action(id: &str) -> (r: MenuAction)
    ensures
        if id@ == "show"@ {
            r is OpenPage
        } else if id@ == "regenerate"@ {
            r matches MenuAction::Tell(s) && s@ == "regenerate"@
        } else if id@ == "update"@ {
            r matches MenuAction::Tell(s) && s@ == "check_update"@
        } else if id@ == "quit"@ {
            r matches MenuAction::TellAndLeave(s) && s@ == "quit"@
        } else {
            r is Ignore
        },
{
    if same(id, "show") {
        MenuAction::OpenPage
    } else if same(id, "regenerate") {
        MenuAction::Tell("regenerate".to_owned())
    } else if same(id, "update") {
        MenuAction::Tell("check_update".to_owned())
    } else if same(id, "quit") {
        MenuAction::TellAndLeave("quit".to_owned())
    } else {
        MenuAction::Ignore
    }
}

/// What the bridge asks for.
pub enum Action {
    /// Stop the transport, where it runs.
    StopTransport,
    /// Write the configuration.
    SaveConfig,
    /// Start the transport with the session of this code.
    StartTransport(String),
    /// Send packets to this host and port from now on, where they can be resolved.
    Retarget(String, u16),
    /// Make a session at this signaling endpoint, and share it.
    CreateSession(String),
    /// Give the bridge this command.
    Send(Ctrl),
    /// Look for a newer version.
    CheckForUpdate,
    /// Open this page in a browser.
    OpenPage(String),
    /// End the program.
    Quit,
}

/// What the bridge knows, and asks for, once `event` happened.
pub open spec fn acts(before: Bridge, event: Event, after: Bridge, actions: Seq<Action>) -> bool {
    match event {
        Event::Command(Ctrl::Connect(id)) => {
            &&& actions =~= seq![
                Action::StopTransport,
                Action::SaveConfig,
                Action::StartTransport(id),
            ]
            &&& after.config == (Config { session_id: Some(id), ..before.config })
            &&& after.ice_servers == before.ice_servers
            &&& after.status.is_quiet()
            &&& after.status.pairing_code == before.status.pairing_code
            &&& after.status.paired
            &&& after.status.session_id == Some(id)
        },
        Event::Command(Ctrl::Disconnect) => {
            &&& actions =~= seq![Action::StopTransport, Action::SaveConfig]
            &&& after.config == (Config { session_id: None, ..before.config })
            &&& after.ice_servers == before.ice_servers
            &&& after.status.is_blank()
        },
        Event::Command(Ctrl::ReloadOsc) => {
            &&& actions =~= seq![Action::Retarget(before.config.osc.host, before.config.osc.port)]
            &&& after == before
        },
        Event::Command(Ctrl::RegenerateCode) => {
            &&& actions =~= seq![
                Action::StopTransport,
                Action::CreateSession(before.config.signaling_url),
            ]
            &&& after == before
        },
        Event::Shared(share) => {
            &&& actions =~= (if share.from_cloud {
                seq![Action::Send(Ctrl::Connect(share.code))]
            } else {
                seq![]
            })
            &&& after.config == before.config
            &&& after.ice_servers == share.ice_servers
            &&& after.status.is_quiet()
            &&& after.status.pairing_code == share.code
            &&& !after.status.paired
            &&& after.status.session_id is None
        },
        Event::Tray(entry) => {
            &&& actions =~= (if entry@ == "regenerate"@ {
                seq![Action::Send(Ctrl::RegenerateCode)]
            } else if entry@ == "check_update"@ {
                seq![Action::CheckForUpdate]
            } else if entry@ == "quit"@ {
                seq![Action::StopTransport, Action::Quit]
            } else {
                seq![]
            })
            &&& after == before
        },
        Event::UpdateFound(_, url) => {
            &&& actions =~= seq![Action::OpenPage(url)]
            &&& after == before
        },
        Event::Interrupted => {
            &&& actions =~= seq![Action::StopTransport, Action::Quit]
            &&& after == before
        },
        Event::Abandoned => {
            &&& actions =~= seq![Action::Quit]
            &&& after == before
        },
    }
}

impl Bridge {
    /// Goes on after `event`, and says what is to be done.
    pub fn step(&mut self, event: Event) -> (r: Vec<Action>)
        ensures
            acts(*old(self), event, *final(self), r@),
    {
        let mut actions: Vec<Action> = Vec::new();
        match event {
            Event::Command(Ctrl::Connect(id)) => {
                self.config.session_id = Some(id.clone());
                let code = self.status.pairing_code.clone();
                let mut status = Status::with_code(code);
                status.paired = true;
                status.session_id = Some(id.clone());
                self.status = status;
                actions.push(Action::StopTransport);
                actions.push(Action::SaveConfig);
                actions.push(Action::StartTransport(id));
            },
            Event::Command(Ctrl::Disconnect) => {
                self.config.session_id = None;
                self.status = Status::default();
                actions.push(Action::StopTransport);
                actions.push(Action::SaveConfig);
            },
            Event::Command(Ctrl::ReloadOsc) => {
                actions.push(
                    Action::Retarget(self.config.osc.host.clone(), self.config.osc.port),
                );
            },
            Event::Command(Ctrl::RegenerateCode) => {
                actions.push(Action::StopTransport);
                actions.push(Action::CreateSession(self.config.signaling_url.clone()));
            },
            Event::Shared(share) => {
                if share.from_cloud {
                    actions.push(Action::Send(Ctrl::Connect(share.code.clone())));
                }
                self.ice_servers = share.ice_servers;
                self.status = Status::with_code(share.code);
            },
            Event::Tray(entry) => {
                if same(entry.as_str(), "regenerate") {
                    actions.push(Action::Send(Ctrl::RegenerateCode));
                } else if same(entry.as_str(), "check_update") {
                    actions.push(Action::CheckForUpdate);
                } else if same(entry.as_str(), "quit") {
                    actions.push(Action::StopTransport);
                    actions.push(Action::Quit);
                }
            },
            Event::UpdateFound(_, url) => {
                actions.push(Action::OpenPage(url));
            },
            Event::Interrupted => {
                actions.push(Action::StopTransport);
                actions.push(Action::Quit);
            },
            Event::Abandoned => {
                actions.push(Action::Quit);
            },
        }
        actions
    }
}

/// Once a session is shared anew, no peer that was let in before counts any more.
pub proof fn law_new_code_starts_afresh(
    before: Bridge,
    share: Share,
    after: Bridge,
    actions: Seq<Action>,
)
    requires
        acts(before, Event::Shared(share), after, actions),
    ensures
        after.status.pairing_code == share.code,
        !after.status.paired,
        !after.status.connected,
        !after.status.confirmed,
{
}

/// A new code revokes the old one: of two pairing codes, the old one is not accepted
/// where the new one is expected.
pub proof fn law_new_code_revokes(
    before: Bridge,
    share: Share,
    after: Bridge,
    actions: Seq<Action>,
)
    requires
        acts(before, Event::Shared(share), after, actions),
        is_pairing_code(before.status.pairing_code@),
        is_pairing_code(share.code@),
        before.status.pairing_code@ != share.code@,
    ensures
        is_ascii_chars(trimmed(before.status.pairing_code@)),
        is_ascii_chars(after.status.pairing_code@),
        ascii_capitals(trimmed(before.status.pairing_code@)) != ascii_capitals(
            after.status.pairing_code@,
        ),
{
    law_pairing_codes_are_told_apart(before.status.pairing_code@, share.code@);
}

/// Every command that changes the session stops the transport first.
pub proof fn law_session_change_stops_transport(
    before: Bridge,
    command: Ctrl,
    after: Bridge,
    actions: Seq<Action>,
)
    requires
        acts(before, Event::Command(command), after, actions),
        !(command is ReloadOsc),
    ensures
        actions.len() > 0,
        actions[0] == Action::StopTransport,
{
}

/// The code that is shown changes only when a session is shared anew or given up.
pub proof fn law_code_is_kept(before: Bridge, event: Event, after: Bridge, actions: Seq<Action>)
    requires
        acts(before, event, after, actions),
        !(event is Shared),
        event != Event::Command(Ctrl::Disconnect),
    ensures
        after.status.pairing_code == before.status.pairing_code,
{
}

/// A session that is taken up asks the user again: no consent of an earlier session
/// counts for it.
pub proof fn law_new_session_asks_again(
    before: Bridge,
    id: String,
    after: Bridge,
    actions: Seq<Action>,
)
    requires
        acts(before, Event::Command(Ctrl::Connect(id)), after, actions),
    ensures
        !after.status.confirmed,
{
}

/// The origins that were there stay in their places, and what is merged in two parts is
/// merged as a whole.
pub proof fn law_origins_are_merged_in_order(
    list: Seq<Seq<char>>,
    a: Seq<Seq<char>>,
    b: Seq<Seq<char>>,
)
    ensures
        list.is_prefix_of(merged(list, a)),
        merged(list, a + b) == merged(merged(list, a), b),
        merged(list, Seq::empty()) == list,
    decreases a.len() + b.len(),
{
    if a.len() > 0 && b.len() == 0 {
        law_origins_are_merged_in_order(list, a.drop_last(), b);
        law_new_entry_comes_last(merged(list, a.drop_last()), Some(a.last()));
        assert(a + b =~= a);
    } else if b.len() > 0 {
        law_origins_are_merged_in_order(list, a, b.drop_last());
        assert((a + b).drop_last() =~= a + b.drop_last());
        assert((a + b).last() == b.last());
    } else {
        assert(a + b =~= a);
    }
}

/// To take up a session stops the transport, keeps the session in the configuration and
/// starts the transport with it. Of the configuration nothing else changes; the status
/// keeps the code alone.
pub proof fn law_session_is_taken_up(
    before: Bridge,
    id: String,
    after: Bridge,
    actions: Seq<Action>,
)
    requires
        acts(before, Event::Command(Ctrl::Connect(id)), after, actions),
    ensures
        actions.len() == 3,
        actions[0] == Action::StopTransport,
        actions[1] == Action::SaveConfig,
        actions[2] == Action::StartTransport(id),
        after.config.session_id == Some(id),
        same_settings(before.config, after.config),
        after.ice_servers == before.ice_servers,
        after.status.pairing_code == before.status.pairing_code,
        after.status.paired,
        after.status.session_id == Some(id),
        !after.status.connected,
        !after.status.ended,
        after.status.last_error is None,
        after.status.frames_in == 0,
        after.status.messages_out == 0,
        after.status.last_frame_ms is None,
        !after.status.awaiting_confirmation,
        after.status.pending_peer is None,
        !after.status.confirmed,
{
}

/// Whether two configurations agree in everything but the session.
pub open spec fn same_settings(a: Config, b: Config) -> bool {
    &&& a.signaling_url == b.signaling_url
    &&& a.control_port == b.control_port
    &&& a.auto_reconnect == b.auto_reconnect
    &&& a.allowed_origins == b.allowed_origins
    &&& a.osc == b.osc
}

/// To give up the session stops the transport, forgets the session and all of the
/// status, and keeps the rest of the configuration.
pub proof fn law_session_is_given_up(before: Bridge, after: Bridge, actions: Seq<Action>)
    requires
        acts(before, Event::Command(Ctrl::Disconnect), after, actions),
    ensures
        actions.len() == 2,
        actions[0] == Action::StopTransport,
        actions[1] == Action::SaveConfig,
        after.config.session_id is None,
        same_settings(before.config, after.config),
        after.ice_servers == before.ice_servers,
        after.status.pairing_code@.len() == 0,
        !after.status.paired,
        after.status.session_id is None,
        !after.status.connected,
        !after.status.ended,
        after.status.last_error is None,
        after.status.frames_in == 0,
        after.status.messages_out == 0,
        after.status.last_frame_ms is None,
        !after.status.awaiting_confirmation,
        after.status.pending_peer is None,
        !after.status.confirmed,
{
}

/// Packets go where the configuration says from the moment at which it is reloaded, and
/// nothing else changes.
pub proof fn law_configured_destination_is_used(
    before: Bridge,
    after: Bridge,
    actions: Seq<Action>,
)
    requires
        acts(before, Event::Command(Ctrl::ReloadOsc), after, actions),
    ensures
        actions.len() == 1,
        actions[0] == Action::Retarget(before.config.osc.host, before.config.osc.port),
        after == before,
{
}

/// A new code is asked for at the configured endpoint once the transport is stopped; what
/// comes back is shared, and taken up where the endpoint knows of it.
pub proof fn law_new_session_is_shared(
    before: Bridge,
    between: Bridge,
    asked: Seq<Action>,
    share: Share,
    after: Bridge,
    actions: Seq<Action>,
)
    requires
        acts(before, Event::Command(Ctrl::RegenerateCode), between, asked),
        acts(between, Event::Shared(share), after, actions),
    ensures
        asked.len() == 2,
        asked[0] == Action::StopTransport,
        asked[1] == Action::CreateSession(before.config.signaling_url),
        between == before,
        after.config == before.config,
        after.ice_servers == share.ice_servers,
        after.status.pairing_code == share.code,
        !after.status.paired,
        after.status.session_id is None,
        !after.status.connected,
        !after.status.ended,
        after.status.last_error is None,
        after.status.frames_in == 0,
        after.status.messages_out == 0,
        after.status.last_frame_ms is None,
        !after.status.awaiting_confirmation,
        after.status.pending_peer is None,
        !after.status.confirmed,
        share.from_cloud ==> actions.len() == 1 && actions[0] == Action::Send(
            Ctrl::Connect(share.code),
        ),
        !share.from_cloud ==> actions.len() == 0,
{
}

/// An entry of the tray menu does what it says; any other message does nothing. Whatever
/// the tray, the update check or an interrupt asks for, the state stays as it is.
pub proof fn law_tray_and_interrupts_are_heard(
    before: Bridge,
    event: Event,
    after: Bridge,
    actions: Seq<Action>,
)
    requires
        acts(before, event, after, actions),
        !(event is Command) && !(event is Shared),
    ensures
        after == before,
        event matches Event::Tray(entry) ==> {
            &&& entry@ == "regenerate"@ ==> actions.len() == 1 && actions[0] == Action::Send(
                Ctrl::RegenerateCode,
            )
            &&& entry@ == "check_update"@ ==> actions.len() == 1 && actions[0]
                == Action::CheckForUpdate
            &&& entry@ == "quit"@ ==> actions.len() == 2 && actions[0] == Action::StopTransport
                && actions[1] == Action::Quit
            &&& entry@ != "regenerate"@ && entry@ != "check_update"@ && entry@ != "quit"@
                ==> actions.len() == 0
        },
        event matches Event::UpdateFound(_, page) ==> actions.len() == 1 && actions[0]
            == Action::OpenPage(page),
        event is Interrupted ==> actions.len() == 2 && actions[0] == Action::StopTransport
            && actions[1] == Action::Quit,
        event is Abandoned ==> actions.len() == 1 && actions[0] == Action::Quit,
{
    reveal_strlit("regenerate");
    reveal_strlit("check_update");
    reveal_strlit("quit");
    assert("regenerate"@.len() == 10 && "check_update"@.len() == 12 && "quit"@.len() == 4);
}

} // verus!
