//! The shared state that the control API shows and the transport changes.

use vstd::prelude::*;

verus! {

/// What is known of the peer that asks to connect. What it says of itself is shown,
/// never trusted.
#[derive(Clone, Debug)]
pub struct PeerInfo {
    /// The name that the peer gives itself.
    pub name: Option<String>,
    /// The site that the peer says it runs on.
    pub origin: Option<String>,
    /// The browser that the peer says it runs in.
    pub user_agent: Option<String>,
    /// The addresses under which the peer can be reached.
    pub ip_addresses: Vec<String>,
    /// The kinds of its network candidates.
    pub candidate_types: Vec<String>,
    /// When it asked, in milliseconds since the Unix epoch.
    pub requested_ms: u64,
}

/// The live state of the connection.
#[derive(Clone, Debug)]
pub struct Status {
    /// The code that the user enters in the browser.
    pub pairing_code: String,
    /// Whether a session was taken up.
    pub paired: bool,
    /// The session that was taken up.
    pub session_id: Option<String>,
    /// Whether the data channel stands.
    pub connected: bool,
    /// Whether the session is over.
    pub ended: bool,
    /// What went wrong last.
    pub last_error: Option<String>,
    /// How many frames came in.
    pub frames_in: u64,
    /// How many messages went out.
    pub messages_out: u64,
    /// When the last frame came in, in milliseconds since the Unix epoch.
    pub last_frame_ms: Option<u64>,
    /// Whether the user is asked to accept a peer.
    pub awaiting_confirmation: bool,
    /// The peer that the user is asked about.
    pub pending_peer: Option<PeerInfo>,
    /// Whether the user accepted a peer in this session.
    pub confirmed: bool,
}

impl Status {
    /// Whether nothing has happened yet: nothing but the code and the session may be
    /// set.
    pub open spec fn is_quiet(self) -> bool {
        &&& !self.connected
        &&& !self.ended
        &&& self.last_error is None
        &&& self.frames_in == 0
        &&& self.messages_out == 0
        &&& self.last_frame_ms is None
        &&& !self.awaiting_confirmation
        &&& self.pending_peer is None
        &&& !self.confirmed
    }

    /// Whether this is a status without a code, a session or a history.
    pub open spec fn is_blank(self) -> bool {
        &&& self.is_quiet()
        &&& self.pairing_code@ == Seq::<char>::empty()
        &&& !self.paired
        &&& self.session_id is None
    }

    /// A status that shows `code` and nothing else.
    pub fn with_code(code: String) -> (r: Self)
        ensures
            r.is_quiet(),
            r.pairing_code == code,
            !r.paired,
            r.session_id is None,
    {
        Status {
            pairing_code: code,
            paired: false,
            session_id: None,
            connected: false,
            ended: false,
            last_error: None,
            frames_in: 0,
            messages_out: 0,
            last_frame_ms: None,
            awaiting_confirmation: false,
            pending_peer: None,
            confirmed: false,
        }
    }

    /// Counts a frame that was mapped to `messages` messages.
    pub fn record_frame(&mut self, messages: u64, now_ms: u64)
        requires
            old(self).frames_in < u64::MAX,
            old(self).messages_out + messages <= u64::MAX,
        ensures
            *final(self) == (Status {
                frames_in: (old(self).frames_in + 1) as u64,
                messages_out: (old(self).messages_out + messages) as u64,
                last_frame_ms: Some(now_ms),
                ..*old(self)
            }),
    {
        self.frames_in = self.frames_in + 1;
        self.messages_out = self.messages_out + messages;
        self.last_frame_ms = Some(now_ms);
    }

    /// Takes note that the data channel was opened.
    pub fn channel_opened(&mut self)
        ensures
            *final(self) == (Status { connected: true, ..*old(self) }),
    {
        self.connected = true;
    }

    /// Puts the peer before the user.
    pub fn ask(&mut self, peer: PeerInfo)
        ensures
            *final(self) == (Status {
                awaiting_confirmation: true,
                pending_peer: Some(peer),
                ..*old(self)
            }),
    {
        self.awaiting_confirmation = true;
        self.pending_peer = Some(peer);
    }

    /// Takes the question back.
    pub fn clear_pending(&mut self)
        ensures
            *final(self) == (Status {
                awaiting_confirmation: false,
                pending_peer: None,
                ..*old(self)
            }),
    {
        self.awaiting_confirmation = false;
        self.pending_peer = None;
    }

    /// How the connection is shown in the tray.
    pub fn connection_status(&self) -> (r: ConnectionStatus)
        ensures
            r == shown_status(*self),
    {
        if self.ended {
            ConnectionStatus::Disconnected
        } else if self.connected {
            ConnectionStatus::Connected
        } else if self.paired {
            ConnectionStatus::Connecting
        } else {
            ConnectionStatus::Disconnected
        }
    }
}

impl Default for Status {
    fn default() -> (r: Self)
        ensures
            r.is_blank(),
    {
        Status::with_code(String::new())
    }
}

/// How the connection is shown in the tray.
#[derive(Clone, Copy, Debug, PartialEq, Eq, Structural)]
pub enum ConnectionStatus {
    /// There is no session.
    Disconnected,
    /// A session was taken up, and the peer is awaited.
    Connecting,
    /// The data channel stands.
    Connected,
}

impl ConnectionStatus {
    /// The text of the tray's status line.
    pub fn as_str(&self) -> (r: &'static str)
        ensures
            r@ == (match *self {
                ConnectionStatus::Disconnected => "● Disconnected"@,
                ConnectionStatus::Connecting => "◐ Connecting..."@,
                ConnectionStatus::Connected => "● Connected"@,
            }),
    {
        match self {
            ConnectionStatus::Disconnected => "● Disconnected",
            ConnectionStatus::Connecting => "◐ Connecting...",
            ConnectionStatus::Connected => "● Connected",
        }
    }

    /// The status to show next where it differs from the one shown, else nothing.
    pub fn changed(shown: ConnectionStatus, status: &Status) -> (r: Option<ConnectionStatus>)
        ensures
            ({
                let now = shown_status(*status);
                r == (if now != shown {
                    Some(now)
                } else {
                    None
                })
            }),
    {
        let now = status.connection_status();
        if now != shown {
            Some(now)
        } else {
            None
        }
    }
}

/// How a status is shown in the tray.
pub open spec fn shown_status(status: Status) -> ConnectionStatus {
    if status.ended || (!status.connected && !status.paired) {
        ConnectionStatus::Disconnected
    } else if status.connected {
        ConnectionStatus::Connected
    } else {
        ConnectionStatus::Connecting
    }
}

/// A command to the bridge.
#[derive(Clone, Debug)]
pub enum Ctrl {
    /// Take up the session of this code.
    Connect(String),
    /// Give up the session.
    Disconnect,
    /// Use the OSC destination that is configured now.
    ReloadOsc,
    /// Replace the pairing code.
    RegenerateCode,
}

/// An OSC destination on the local network.
#[derive(Clone, Debug)]
pub struct Discovered {
    /// The name under which it announces itself.
    pub name: String,
    /// Its host.
    pub host: String,
    /// Its port.
    pub port: u16,
}

/// In a quiet status nothing is connected, over, wrong, counted, asked or accepted; a
/// blank one has neither a code nor a session either.
pub proof fn law_quiet_status_tells_nothing(status: Status)
    ensures
        status.is_quiet() <==> !status.connected && !status.ended && status.last_error is None
            && status.frames_in == 0 && status.messages_out == 0 && status.last_frame_ms is None
            && !status.awaiting_confirmation && status.pending_peer is None && !status.confirmed,
        status.is_blank() <==> status.is_quiet() && status.pairing_code@.len() == 0
            && !status.paired && status.session_id is None,
{
    if status.pairing_code@.len() == 0 {
        assert(status.pairing_code@ =~= Seq::<char>::empty());
    }
}

/// A session is shown as connected where its channel stands and it is not over, as
/// connecting where it was taken up and neither holds, and as disconnected otherwise.
pub proof fn law_status_is_shown_as_it_is(status: Status)
    ensures
        shown_status(status) == ConnectionStatus::Connected <==> status.connected && !status.ended,
        shown_status(status) == ConnectionStatus::Connecting <==> status.paired
            && !status.connected && !status.ended,
        shown_status(status) == ConnectionStatus::Disconnected <==> status.ended || (
        !status.connected && !status.paired),
{
}

} // verus!
