//! The session with one browser peer: how it is set up, how its frames are handled,
//! and what happens when it ends.

use crate::config::OscConfig;
use crate::json::{parse, parsed_tree, Json};
use crate::message::{message_views, BridgeMessage};
use crate::router::{inbound_messages, map_inbound};
use crate::state::{shown_status, ConnectionStatus, Status};
use crate::text::{
    concat, concat3, law_trimmed_end_of_is_the_start, trim_end_of, trimmed_end_of, views,
};
use vstd::prelude::*;

verus! {

/// A server that helps two peers to find a way to each other.
pub struct IceServer {
    /// Where it is.
    pub urls: Vec<String>,
    /// The user to name there; empty for none.
    pub username: String,
    /// The secret to give there; empty for none.
    pub credential: String,
}

/// What an [`IceServer`] holds.
pub struct IceServerView {
    /// Where it is.
    pub urls: Seq<Seq<char>>,
    /// The user to name there.
    pub username: Seq<char>,
    /// The secret to give there.
    pub credential: Seq<char>,
}

impl View for IceServer {
    type V = IceServerView;

    open spec fn view(&self) -> IceServerView {
        IceServerView {
            urls: views(self.urls@),
            username: self.username@,
            credential: self.credential@,
        }
    }
}

/// What a list of servers holds.
pub open spec fn server_views(servers: Seq<IceServer>) -> Seq<IceServerView> {
    servers.map_values(|s: IceServer| s@)
}

/// One text, or a list of them.
pub enum StringOrVec {
    /// One text.
    One(String),
    /// A list of texts.
    Many(Vec<String>),
}

/// A server as the signaling endpoint names it.
pub struct IceServerCfg {
    /// Where it is.
    pub urls: StringOrVec,
    /// The user to name there.
    pub username: Option<String>,
    /// The secret to give there.
    pub credential: Option<String>,
}

/// What a text that may be missing stands for: nothing is the empty text.
pub open spec fn or_empty(text: Option<String>) -> Seq<char> {
    match text {
        Some(s) => s@,
        None => Seq::empty(),
    }
}

fn unwrap_or_empty(text: Option<String>) -> (r: String)
    ensures
        r@ == or_empty(text),
{
    match text {
        Some(s) => s,
        None => String::new(),
    }
}

impl IceServerCfg {
    /// The server that is meant.
    pub open spec fn meant(self) -> IceServerView {
        IceServerView {
            urls: match self.urls {
                StringOrVec::One(s) => seq![s@],
                StringOrVec::Many(v) => views(v@),
            },
            username: or_empty(self.username),
            credential: or_empty(self.credential),
        }
    }
}

impl IceServer {
    /// The server that the signaling endpoint means.
    pub fn from_cfg(cfg: IceServerCfg) -> (r: Self)
        ensures
            r@ == cfg.meant(),
    {
        let urls = match cfg.urls {
            StringOrVec::One(s) => {
                let mut v: Vec<String> = Vec::new();
                v.push(s);
                assert(views(v@) == seq![s@]);
                v
            },
            StringOrVec::Many(v) => v,
        };
        IceServer {
            urls,
            username: unwrap_or_empty(cfg.username),
            credential: unwrap_or_empty(cfg.credential),
        }
    }

    /// A server that holds the same.
    pub fn copied(&self) -> (r: Self)
        ensures
            r@ == self@,
    {
        let mut urls: Vec<String> = Vec::new();
        let mut i: usize = 0;
        while i < self.urls.len()
            invariant
                i <= self.urls@.len(),
                urls@ == self.urls@.take(i as int),
            decreases self.urls@.len() - i,
        {
            urls.push(self.urls[i].clone());
            i += 1;
        }
        assert(urls@ == self.urls@);
        IceServer { urls, username: self.username.clone(), credential: self.credential.clone() }
    }
}

/// The answer of the signaling endpoint to the request for a session.
pub struct CreateSessionResp {
    /// The code to share.
    pub code: String,
    /// The servers to use.
    pub ice_servers: Vec<IceServerCfg>,
    /// When the session lapses, as the endpoint counts time.
    pub expires_at: u64,
}

/// A session that the signaling endpoint made: the code to share, and the servers to
/// use for the connection.
pub struct SessionInfo {
    /// The code to share.
    pub code: String,
    /// The servers to use.
    pub ice_servers: Vec<IceServer>,
    /// When the session lapses, as the endpoint counts time.
    pub expires_at: u64,
}

/// Whether an HTTP status reports success.
pub open spec fn success(status: u16) -> bool {
    200 <= status <= 299
}

/// Whether an HTTP status reports success.
pub fn is_success(status: u16) -> (r: bool)
    ensures
        r == success(status),
{
    200 <= status && status <= 299
}

/// The address at which a session is asked for.
pub open spec fn session_address(signaling_url: Seq<char>) -> Seq<char> {
    trimmed_end_of(signaling_url, '/') + "/v1/webrtc/session"@
}

/// The address at which a session is asked for.
pub fn session_url(signaling_url: &str) -> (r: String)
    ensures
        r@ == session_address(signaling_url@),
{
    let base = trim_end_of(signaling_url, '/');
    concat(base.as_str(), "/v1/webrtc/session")
}

/// What came of the request for a session.
pub enum SessionReply {
    /// It could not be made; why.
    Unsent(String),
    /// It was answered: the status, its text, and what the body says or why it says
    /// nothing.
    Answered(u16, String, Result<CreateSessionResp, String>),
}

/// The session that the signaling endpoint made, or why it made none.
pub fn create_session(reply: SessionReply) -> (r: Result<SessionInfo, String>)
    ensures
        match reply {
            SessionReply::Unsent(e) => r == Err::<SessionInfo, String>(e),
            SessionReply::Answered(status, text, body) => if !success(status) {
                r matches Err(e) && e@ == "create session failed ("@ + text@ + ")"@
            } else {
                match body {
                    Ok(resp) => r matches Ok(info) && info.code == resp.code && info.expires_at
                        == resp.expires_at && server_views(info.ice_servers@)
                        == resp.ice_servers@.map_values(|c: IceServerCfg| c.meant()),
                    Err(e) => r == Err::<SessionInfo, String>(e),
                }
            },
        },
{
    match reply {
        SessionReply::Unsent(e) => Err(e),
        SessionReply::Answered(status, text, body) => {
            if !is_success(status) {
                return Err(concat3("create session failed (", text.as_str(), ")"));
            }
            match body {
                Ok(resp) => {
                    let ghost meant = resp.ice_servers@.map_values(|c: IceServerCfg| c.meant());
                    let ghost named = resp.ice_servers@;
                    let mut ice_servers: Vec<IceServer> = Vec::new();
                    for cfg in it: resp.ice_servers.into_iter()
                        invariant
                            it.seq() == named,
                            meant == named.map_values(|c: IceServerCfg| c.meant()),
                            server_views(ice_servers@) == meant.take(it.index() as int),
                    {
                        let ghost before = ice_servers@;
                        let server = IceServer::from_cfg(cfg);
                        ice_servers.push(server);
                        assert(server_views(ice_servers@) == server_views(before).push(server@));
                        assert(meant[it.index() as int] == server@);
                    }
                    assert(server_views(ice_servers@) == meant);
                    Ok(SessionInfo { code: resp.code, ice_servers, expires_at: resp.expires_at })
                },
                Err(e) => Err(e),
            }
        },
    }
}

/// How a session came to its end.
pub enum SessionEnd {
    /// The peer closed it: it is not taken up again.
    Ended,
    /// The user declined it: it is not taken up again.
    Rejected,
    /// It broke off or could not be set up, where known why: it is taken up again
    /// where that is wanted.
    Dropped(Option<String>),
}

/// The state of a peer connection, as far as it matters here.
pub enum PeerState {
    /// It stands.
    Connected,
    /// It is interrupted.
    Disconnected,
    /// It cannot be set up.
    Failed,
    /// It was closed.
    Closed,
    /// Anything else.
    Other,
}

/// Takes note of a new state of the peer connection. Gives the end of the session
/// where the state is one.
pub fn on_peer_state(state: PeerState, status: &mut Status) -> (r: Option<SessionEnd>)
    ensures
        match state {
            PeerState::Connected => r is None && *final(status) == (Status {
                connected: true,
                ended: false,
                last_error: None,
                ..*old(status)
            }),
            PeerState::Disconnected | PeerState::Failed => *final(status) == *old(status)
                && (r matches Some(SessionEnd::Dropped(Some(e))) && e@ == "peer connection lost"@),
            PeerState::Closed => *final(status) == *old(status) && r == Some(SessionEnd::Ended),
            PeerState::Other => *final(status) == *old(status) && r is None,
        },
{
    match state {
        PeerState::Connected => {
            status.connected = true;
            status.ended = false;
            status.last_error = None;
            None
        },
        PeerState::Disconnected => Some(SessionEnd::Dropped(Some("peer connection lost".to_owned()))),
        PeerState::Failed => Some(SessionEnd::Dropped(Some("peer connection lost".to_owned()))),
        PeerState::Closed => Some(SessionEnd::Ended),
        PeerState::Other => None,
    }
}

/// How long to wait before a session is taken up again: it doubles from one time to
/// the next, up to a bound.
pub struct Backoff {
    ms: u64,
}

/// The wait before the first retry, in milliseconds.
pub const FIRST_BACKOFF_MS: u64 = 500;

/// The longest wait, in milliseconds.
pub const MAX_BACKOFF_MS: u64 = 10000;

/// Two to the power of `n`.
pub open spec fn power_of_two(n: nat) -> nat
    decreases n,
{
    if n == 0 {
        1
    } else {
        2 * power_of_two((n - 1) as nat)
    }
}

/// The wait before retry number `n`, counted from zero, in milliseconds.
pub open spec fn nth_wait(n: nat) -> int {
    if FIRST_BACKOFF_MS * power_of_two(n) <= MAX_BACKOFF_MS {
        FIRST_BACKOFF_MS * power_of_two(n)
    } else {
        MAX_BACKOFF_MS as int
    }
}

/// The wait after a wait: twice as long, up to the bound.
pub open spec fn doubled(wait: int) -> int {
    if 2 * wait <= MAX_BACKOFF_MS {
        2 * wait
    } else {
        MAX_BACKOFF_MS as int
    }
}

impl Backoff {
    /// The next wait, in milliseconds.
    pub closed spec fn wait(self) -> int {
        self.ms as int
    }

    /// Whether the next wait is one that can come up.
    pub open spec fn well_formed(self) -> bool {
        FIRST_BACKOFF_MS <= self.wait() <= MAX_BACKOFF_MS
    }

    /// The state before the first retry.
    pub fn new() -> (r: Self)
        ensures
            r.well_formed(),
            r.wait() == nth_wait(0),
    {
        Backoff { ms: FIRST_BACKOFF_MS }
    }

    /// Gives the wait for the retry that is due, and doubles the one after it.
    pub fn next(&mut self) -> (r: u64)
        requires
            old(self).well_formed(),
        ensures
            final(self).well_formed(),
            r == old(self).wait(),
            final(self).wait() == doubled(old(self).wait()),
    {
        let wait: u64 = self.ms;
        self.ms = if 2 * wait <= MAX_BACKOFF_MS {
            2 * wait
        } else {
            MAX_BACKOFF_MS
        };
        wait
    }
}

/// What the transport does after a session.
pub enum AfterSession {
    /// It stops.
    Stop,
    /// It waits that many milliseconds and takes the session up again.
    Retry(u64),
}

/// The status after a session came to its end.
pub open spec fn settled(end: SessionEnd, before: Status, after: Status) -> bool {
    match end {
        SessionEnd::Ended => after == (Status { connected: false, ended: true, ..before }),
        SessionEnd::Rejected => after == (Status {
            connected: false,
            ended: true,
            awaiting_confirmation: false,
            pending_peer: None,
            last_error: after.last_error,
            ..before
        }) && (after.last_error matches Some(e) && e@ == "connection declined"@),
        SessionEnd::Dropped(err) => after == (Status {
            connected: false,
            last_error: err,
            ..before
        }),
    }
}

/// Takes note of the end of a session, and says whether it is taken up again: only one
/// that was dropped is, and only where that is wanted.
pub fn after_session(
    end: SessionEnd,
    auto_reconnect: bool,
    backoff: &mut Backoff,
    status: &mut Status,
) -> (r: AfterSession)
    requires
        old(backoff).well_formed(),
    ensures
        final(backoff).well_formed(),
        settled(end, *old(status), *final(status)),
        if end is Dropped && auto_reconnect {
            r == AfterSession::Retry(old(backoff).wait() as u64) && final(backoff).wait()
                == doubled(old(backoff).wait())
        } else {
            r == AfterSession::Stop && *final(backoff) == *old(backoff)
        },
{
    match end {
        SessionEnd::Ended => {
            status.connected = false;
            status.ended = true;
            AfterSession::Stop
        },
        SessionEnd::Rejected => {
            status.clear_pending();
            status.connected = false;
            status.ended = true;
            status.last_error = Some("connection declined".to_owned());
            AfterSession::Stop
        },
        SessionEnd::Dropped(err) => {
            status.connected = false;
            status.last_error = err;
            if auto_reconnect {
                AfterSession::Retry(backoff.next())
            } else {
                AfterSession::Stop
            }
        },
    }
}

/// The wait of a backoff after `n` retries is the wait that the schedule gives: if it
/// is before a retry, it is after it.
pub proof fn law_backoff_follows_schedule(before: int, after: int, n: nat)
    requires
        before == nth_wait(n),
        after == doubled(before),
    ensures
        after == nth_wait(n + 1),
{
    assert(power_of_two(n + 1) == 2 * power_of_two(n));
}

/// No wait is shorter than the first or longer than the bound, and none is shorter
/// than the one before it.
pub proof fn law_backoff_grows_to_bound(n: nat)
    ensures
        FIRST_BACKOFF_MS <= nth_wait(n) <= nth_wait(n + 1) <= MAX_BACKOFF_MS,
    decreases n,
{
    assert(power_of_two(n + 1) == 2 * power_of_two(n));
    if n > 0 {
        law_backoff_grows_to_bound((n - 1) as nat);
    }
}

/// The consent of the user outlives a session that drops: the retry does not ask again.
pub proof fn law_consent_outlives_a_drop(err: Option<String>, before: Status, after: Status)
    requires
        settled(SessionEnd::Dropped(err), before, after),
    ensures
        after.confirmed == before.confirmed,
        after.ended == before.ended,
{
}

/// However a session ends, it is not shown as connected any more.
pub proof fn law_ended_session_is_not_connected(end: SessionEnd, before: Status, after: Status)
    requires
        settled(end, before, after),
    ensures
        !after.connected,
        shown_status(after) != ConnectionStatus::Connected,
{
}

/// The messages of a frame that was read as JSON, or nothing where it is to be left
/// alone: it is not JSON, or the adapter is off.
pub fn frame_messages(frame: Option<Json>, osc: &OscConfig) -> (r: Option<Vec<BridgeMessage>>)
    ensures
        match frame {
            Some(json) => if osc.enabled {
                r matches Some(messages) && message_views(messages@) == inbound_messages(
                    json@,
                    osc.prefix@,
                    osc.flatten,
                )
            } else {
                r is None
            },
            None => r is None,
        },
{
    match frame {
        Some(json) => {
            if osc.enabled {
                Some(map_inbound(&json, osc))
            } else {
                None
            }
        },
        None => None,
    }
}

/// The messages of one frame of the data channel, or nothing where it is to be left
/// alone.
pub fn handle_frame(data: &[u8], osc: &OscConfig) -> (r: Option<Vec<BridgeMessage>>)
    ensures
        match parsed_tree(data@) {
            Some(t) => if osc.enabled {
                r matches Some(messages) && message_views(messages@) == inbound_messages(
                    t,
                    osc.prefix@,
                    osc.flatten,
                )
            } else {
                r is None
            },
            None => r is None,
        },
{
    frame_messages(parse(data), osc)
}

/// Takes note of a frame whose messages went out, where it was not left alone.
pub fn count_frame(status: &mut Status, messages: &Option<Vec<BridgeMessage>>, now_ms: u64)
    requires
        *messages matches Some(m) ==> old(status).frames_in < u64::MAX && old(status).messages_out
            + m@.len() <= u64::MAX,
    ensures
        match *messages {
            Some(m) => *final(status) == (Status {
                frames_in: (old(status).frames_in + 1) as u64,
                messages_out: (old(status).messages_out + m@.len()) as u64,
                last_frame_ms: Some(now_ms),
                ..*old(status)
            }),
            None => *final(status) == *old(status),
        },
{
    match messages {
        Some(m) => {
            status.record_frame(m.len() as u64, now_ms);
        },
        None => {},
    }
}

/// A server that the signaling endpoint names is used with all of its addresses, in
/// their order, and with the user and the credential that are named, none where none is,
/// whether its address is one text or a list.
pub proof fn law_server_is_used_as_named(cfg: IceServerCfg)
    ensures
        cfg.username matches Some(user) ==> cfg.meant().username == user@,
        cfg.username is None ==> cfg.meant().username.len() == 0,
        cfg.credential matches Some(secret) ==> cfg.meant().credential == secret@,
        cfg.credential is None ==> cfg.meant().credential.len() == 0,
        cfg.urls matches StringOrVec::One(url) ==> cfg.meant().urls == seq![url@],
        cfg.urls matches StringOrVec::Many(urls) ==> cfg.meant().urls.len() == urls@.len() && (
        forall|i: int| 0 <= i < urls@.len() ==> #[trigger] cfg.meant().urls[i] == urls@[i]@),
{
}

/// A single text means the same server as the list of that one text.
pub proof fn law_single_address_is_a_list_of_one(one: IceServerCfg, many: IceServerCfg)
    requires
        one.urls matches StringOrVec::One(url) && (many.urls matches StringOrVec::Many(urls)
            && urls@ == seq![url]),
        one.username == many.username,
        one.credential == many.credential,
    ensures
        one.meant() == many.meant(),
{
    assert(one.meant().urls =~= many.meant().urls);
}

/// A server holds its addresses, its user and its credential; a list of servers holds
/// each of them in its place.
pub proof fn law_servers_hold_their_parts(servers: Seq<IceServer>, k: int)
    requires
        0 <= k < servers.len(),
    ensures
        server_views(servers).len() == servers.len(),
        server_views(servers)[k].username == servers[k].username@,
        server_views(servers)[k].credential == servers[k].credential@,
        server_views(servers)[k].urls.len() == servers[k].urls@.len(),
        forall|i: int|
            0 <= i < servers[k].urls@.len() ==> #[trigger] server_views(servers)[k].urls[i]
                == servers[k].urls@[i]@,
{
}

/// The address at which a session is asked for stands one slash below the endpoint,
/// whatever slashes the endpoint ends in.
pub proof fn law_session_address_is_below_the_endpoint(url: Seq<char>) -> (n: int)
    ensures
        0 <= n <= url.len(),
        session_address(url) == url.take(n) + "/v1/webrtc/session"@,
        forall|i: int| n <= i < url.len() ==> #[trigger] url[i] == '/',
        n > 0 ==> url[n - 1] != '/',
{
    law_trimmed_end_of_is_the_start(url, '/')
}

/// An HTTP status reports success from 200 to 299, and nowhere else.
pub proof fn law_success_is_two_hundred_and_some(status: u16)
    ensures
        success(status) <==> status / 100 == 2,
{
}

/// The end of a session changes nothing but what it is about: whether the session is
/// connected or over, what went wrong, and, where the user declined it, the question.
pub proof fn law_end_changes_what_it_is_about(end: SessionEnd, before: Status, after: Status)
    requires
        settled(end, before, after),
    ensures
        !after.connected,
        after.ended == (before.ended || !(end is Dropped)),
        match end {
            SessionEnd::Ended => after.last_error == before.last_error,
            SessionEnd::Rejected => after.last_error matches Some(e) && e@
                == "connection declined"@,
            SessionEnd::Dropped(err) => after.last_error == err,
        },
        end is Rejected ==> !after.awaiting_confirmation && after.pending_peer is None,
        !(end is Rejected) ==> after.awaiting_confirmation == before.awaiting_confirmation
            && after.pending_peer == before.pending_peer,
        after.pairing_code == before.pairing_code,
        after.paired == before.paired,
        after.session_id == before.session_id,
        after.frames_in == before.frames_in,
        after.messages_out == before.messages_out,
        after.last_frame_ms == before.last_frame_ms,
        after.confirmed == before.confirmed,
{
}

/// The first wait is half a second; each wait is twice as long as the one before, and
/// none is longer than ten seconds.
pub proof fn law_waits_double_up_to_ten_seconds(n: nat)
    ensures
        nth_wait(0) == 500,
        2 * nth_wait(n) <= 10000 ==> nth_wait(n + 1) == 2 * nth_wait(n),
        2 * nth_wait(n) > 10000 ==> nth_wait(n + 1) == 10000,
{
    assert(power_of_two(0) == 1);
    assert(power_of_two(n + 1) == 2 * power_of_two(n));
}

} // verus!
