//! The local control API: what each request changes, and what it is answered.

use crate::body::{entry_views, push_entry, Body, BodyView};
use crate::config::{Config, OscConfig};
use crate::json::{parse, parsed_tree, Json};
use crate::message::{message_views, BridgeMessage};
use crate::report::{
    lemma_shows, show_config, show_destinations, show_osc, show_state, shown_config,
    shown_destinations, shown_osc, shown_state, shows,
};
use crate::router::{inbound_messages, map_inbound};
use crate::state::{Discovered, Status};
use crate::text::{
    chars_of, concat, find, law_outer_white_space_is_lost, lemma_filter_of_sum, same, stands_at,
    string_from, trim, trimmed, views, white_space,
};
use crate::transport::offer::{offer_read, read_offer, Description};
use rand::Rng;
use vstd::prelude::*;
use vstd::utf8::{encode_utf8, is_ascii_chars};

verus! {

/// The characters of pairing codes: capitals and digits, without those that are easy
/// to take for one another.
pub const CODE_CHARS: &'static str = "ABCDEFGHJKLMNPQRSTUVWXYZ23456789";

/// The length of a pairing code.
pub const CODE_LENGTH: usize = 6;

/// Whether `code` can be a pairing code.
pub open spec fn is_pairing_code(code: Seq<char>) -> bool {
    &&& code.len() == CODE_LENGTH
    &&& forall|i: int| 0 <= i < code.len() ==> CODE_CHARS@.contains(#[trigger] code[i])
}

/// `gen_range` of rand's thread-local generator draws a number below `bound`; which
/// one is left to chance.
#[verifier::external_body]
fn random_below(bound: usize) -> (r: usize)
    requires
        bound > 0,
    ensures
        r < bound,
{
    rand::thread_rng().gen_range(0..bound)
}

/// The pairing code that the drawn numbers pick from the characters of codes.
pub fn pairing_code_of(draws: &Vec<usize>) -> (r: String)
    requires
        forall|i: int| 0 <= i < draws@.len() ==> (#[trigger] draws@[i]) < CODE_CHARS@.len(),
    ensures
        r@ == draws@.map_values(|d: usize| CODE_CHARS@[d as int]),
{
    let chars = chars_of(CODE_CHARS);
    let mut out = String::new();
    let mut i: usize = 0;
    let ghost picked = draws@.map_values(|d: usize| CODE_CHARS@[d as int]);
    while i < draws.len()
        invariant
            i <= draws@.len(),
            chars@ == CODE_CHARS@,
            forall|i: int| 0 <= i < draws@.len() ==> (#[trigger] draws@[i]) < CODE_CHARS@.len(),
            picked == draws@.map_values(|d: usize| CODE_CHARS@[d as int]),
            out@ == picked.take(i as int),
        decreases draws@.len() - i,
    {
        out.push(chars[draws[i]]);
        assert(out@ == picked.take(i + 1));
        i += 1;
    }
    assert(picked.take(i as int) == picked);
    out
}

/// A new pairing code, drawn at random.
pub fn generate_pairing_code() -> (r: String)
    ensures
        is_pairing_code(r@),
{
    let count: usize = chars_of(CODE_CHARS).len();
    proof {
        reveal_strlit("ABCDEFGHJKLMNPQRSTUVWXYZ23456789");
    }
    let mut draws: Vec<usize> = Vec::new();
    while draws.len() < CODE_LENGTH
        invariant
            draws@.len() <= CODE_LENGTH,
            0 < count,
            count == CODE_CHARS@.len(),
            forall|i: int| 0 <= i < draws@.len() ==> (#[trigger] draws@[i]) < CODE_CHARS@.len(),
        decreases CODE_LENGTH - draws@.len(),
    {
        draws.push(random_below(count));
    }
    pairing_code_of(&draws)
}

/// The capital of an ASCII letter; any other character is its own.
pub open spec fn ascii_capital(c: char) -> char {
    if 'a' <= c <= 'z' {
        (c as int - 32) as char
    } else {
        c
    }
}

/// The text in ASCII capitals.
pub open spec fn ascii_capitals(s: Seq<char>) -> Seq<char> {
    s.map_values(|c: char| ascii_capital(c))
}

/// The text in capitals, as [`str::to_uppercase`] gives it.
pub uninterp spec fn capitals(s: Seq<char>) -> Seq<char>;

/// [`str::to_uppercase`] gives the text in capitals by the rules of Unicode; ASCII
/// letters become ASCII capitals, and other ASCII characters stay as they are.
#[verifier::external_body]
fn to_capitals(s: &str) -> (r: String)
    ensures
        r@ == capitals(s@),
        is_ascii_chars(s@) ==> r@ == ascii_capitals(s@),
{
    s.to_uppercase()
}

/// Whether the code that a peer gives is the one that is expected: neither the white
/// space around it nor its case matters.
pub open spec fn code_matches(given: Seq<char>, expected: Seq<char>) -> bool {
    capitals(trimmed(given)) == capitals(expected)
}

/// Whether the code that a peer gives is the one that is expected: neither the white
/// space around it nor its case matters.
pub fn codes_match(given: &str, expected: &str) -> (r: bool)
    ensures
        r == code_matches(given@, expected@),
        is_ascii_chars(trimmed(given@)) && is_ascii_chars(expected@) ==> r == (ascii_capitals(
            trimmed(given@),
        ) == ascii_capitals(expected@)),
{
    let chars = chars_of(given);
    let bare = trim(&chars);
    let text = string_from(&bare, 0, bare.len());
    assert(text@ == trimmed(given@));
    let a = to_capitals(text.as_str());
    let b = to_capitals(expected);
    same(a.as_str(), b.as_str())
}

/// What a request is answered: an HTTP status and a JSON body.
pub struct Reply {
    /// The HTTP status.
    pub status: u16,
    /// The body.
    pub body: Body,
}

/// The body that reports success.
pub open spec fn ok_body() -> BodyView {
    BodyView::Object(seq![("ok"@, BodyView::Bool(true))])
}

/// The body that reports an error.
pub open spec fn error_body(message: Seq<char>) -> BodyView {
    BodyView::Object(seq![("error"@, BodyView::Text(message))])
}

impl Reply {
    /// Whether this is the answer with that status and that body.
    pub open spec fn holds(self, status: u16, body: BodyView) -> bool {
        self.status == status && self.body@ == body
    }

    fn one(status: u16, name: &str, value: Body) -> (r: Self)
        ensures
            r.holds(status, BodyView::Object(seq![(name@, value@)])),
    {
        let mut entries: Vec<(String, Body)> = Vec::new();
        push_entry(&mut entries, name, value);
        assert(entry_views(entries@) == seq![(name@, value@)]);
        Reply { status, body: Body::object(entries) }
    }

    fn two(status: u16, name1: &str, value1: Body, name2: &str, value2: Body) -> (r: Self)
        ensures
            r.holds(status, BodyView::Object(seq![(name1@, value1@), (name2@, value2@)])),
    {
        let mut entries: Vec<(String, Body)> = Vec::new();
        push_entry(&mut entries, name1, value1);
        push_entry(&mut entries, name2, value2);
        assert(entry_views(entries@) == seq![(name1@, value1@), (name2@, value2@)]);
        Reply { status, body: Body::object(entries) }
    }

    /// Success, and nothing more to say.
    pub fn ok() -> (r: Self)
        ensures
            r.holds(200, ok_body()),
    {
        Self::one(200, "ok", Body::Bool(true))
    }

    /// An error with its message.
    pub fn error(status: u16, message: &str) -> (r: Self)
        ensures
            r.holds(status, error_body(message@)),
    {
        Self::one(status, "error", Body::Text(message.to_owned()))
    }
}

/// The answer to the question whether the bridge is up.
pub fn health() -> (r: Reply)
    ensures
        r.holds(
            200,
            BodyView::Object(
                seq![("ok"@, BodyView::Bool(true)), ("app"@, BodyView::Text("pieeg-local-bridge"@))],
            ),
        ),
{
    Reply::two(200, "ok", Body::Bool(true), "app", Body::Text("pieeg-local-bridge".to_owned()))
}

/// The body that shows the state of the bridge.
pub open spec fn status_body(status: Status, cfg: Config, discovered: Seq<Discovered>) -> BodyView {
    BodyView::Object(
        seq![
            ("status"@, shown_state(status)),
            ("config"@, shown_config(cfg)),
            ("discovered"@, shown_destinations(discovered)),
        ],
    )
}

/// The answer to the question for the state of the bridge.
pub fn status(shown: &Status, cfg: &Config, discovered: &Vec<Discovered>) -> (r: Reply)
    ensures
        r.holds(200, status_body(*shown, *cfg, discovered@)),
{
    let mut entries: Vec<(String, Body)> = Vec::new();
    push_entry(&mut entries, "status", show_state(shown));
    push_entry(&mut entries, "config", show_config(cfg));
    push_entry(&mut entries, "discovered", show_destinations(discovered));
    assert(entry_views(entries@) == status_body(*shown, *cfg, discovered@)->Object_0);
    Reply { status: 200, body: Body::object(entries) }
}

/// The answer to the request for a new pairing code, by whether the bridge could be
/// told.
pub fn regenerate(told: bool) -> (r: Reply)
    ensures
        if told {
            r.holds(200, ok_body())
        } else {
            r.holds(500, error_body("orchestrator unavailable"@))
        },
{
    if told {
        Reply::ok()
    } else {
        Reply::error(500, "orchestrator unavailable")
    }
}

/// The answer to the request to give up the session: it is always granted.
pub fn disconnect() -> (r: Reply)
    ensures
        r.holds(200, ok_body()),
{
    Reply::ok()
}

/// The answer to the user's decision on a peer, by whether a peer was waiting for one.
pub fn decided(was_pending: bool) -> (r: Reply)
    ensures
        if was_pending {
            r.holds(200, ok_body())
        } else {
            r.holds(409, error_body("no pending request"@))
        },
{
    if was_pending {
        Reply::ok()
    } else {
        Reply::error(409, "no pending request")
    }
}

/// Changes to the OSC adapter: what is missing stays as it is.
pub struct OscReq {
    /// Whether the frames of a session are forwarded.
    pub enabled: Option<bool>,
    /// The host that receives the packets.
    pub host: Option<String>,
    /// The port that receives the packets.
    pub port: Option<u16>,
    /// The address under which flattened frames stand.
    pub prefix: Option<String>,
    /// Whether frames without an envelope are flattened into addresses.
    pub flatten: Option<bool>,
}

/// The adapter's configuration with the changes made.
pub open spec fn with_changes(osc: OscConfig, req: OscReq) -> OscConfig {
    OscConfig {
        enabled: match req.enabled {
            Some(v) => v,
            None => osc.enabled,
        },
        host: match req.host {
            Some(v) => v,
            None => osc.host,
        },
        port: match req.port {
            Some(v) => v,
            None => osc.port,
        },
        prefix: match req.prefix {
            Some(v) => v,
            None => osc.prefix,
        },
        flatten: match req.flatten {
            Some(v) => v,
            None => osc.flatten,
        },
    }
}

/// Makes the changes to the OSC adapter; the rest of the configuration stays.
pub fn update_osc(cfg: &mut Config, req: OscReq)
    ensures
        *final(cfg) == (Config { osc: with_changes(old(cfg).osc, req), ..*old(cfg) }),
{
    if let Some(v) = req.enabled {
        cfg.osc.enabled = v;
    }
    if let Some(v) = req.host {
        cfg.osc.host = v;
    }
    if let Some(v) = req.port {
        cfg.osc.port = v;
    }
    if let Some(v) = req.prefix {
        cfg.osc.prefix = v;
    }
    if let Some(v) = req.flatten {
        cfg.osc.flatten = v;
    }
}

/// The body that reports the configuration of the OSC adapter.
pub open spec fn osc_body(osc: OscConfig) -> BodyView {
    BodyView::Object(seq![("ok"@, BodyView::Bool(true)), ("osc"@, shown_osc(osc))])
}

/// The answer to a request for changes to the OSC adapter, by its configuration once
/// they were made: it is always granted.
pub fn osc_updated(osc: &OscConfig) -> (r: Reply)
    ensures
        r.holds(200, osc_body(*osc)),
{
    Reply::two(200, "ok", Body::Bool(true), "osc", show_osc(osc))
}

/// To ask for the same changes again changes nothing.
pub proof fn law_update_is_idempotent(osc: OscConfig, req: OscReq)
    ensures
        with_changes(with_changes(osc, req), req) == with_changes(osc, req),
{
}

/// A request that names no change makes none.
pub proof fn law_empty_update_changes_nothing(osc: OscConfig, req: OscReq)
    requires
        req.enabled is None,
        req.host is None,
        req.port is None,
        req.prefix is None,
        req.flatten is None,
    ensures
        with_changes(osc, req) == osc,
{
}

/// Whether the bytes can stand in an HTTP header: no control character but the tab.
pub open spec fn header_text(bytes: Seq<u8>) -> bool {
    forall|i: int|
        0 <= i < bytes.len() ==> (#[trigger] bytes[i] >= 32 && bytes[i] != 127) || bytes[i] == 9
}

/// `axum::http::HeaderValue::from_str` takes a text whose UTF-8 bytes can all stand in a header,
/// and no other.
#[verifier::external_body]
fn is_header_value(s: &str) -> (r: bool)
    ensures
        r == header_text(encode_utf8(s@)),
{
    axum::http::HeaderValue::from_str(s).is_ok()
}

/// Whether an origin can be named in an HTTP header.
pub open spec fn usable_origin() -> spec_fn(Seq<char>) -> bool {
    |o: Seq<char>| header_text(encode_utf8(o))
}

/// The origins that can be named in an HTTP header; the others are passed over.
pub fn usable_origins(allowed: &Vec<String>) -> (r: Vec<String>)
    ensures
        views(r@) == views(allowed@).filter(usable_origin()),
{
    let ghost all = views(allowed@);
    let mut out: Vec<String> = Vec::new();
    let mut i: usize = 0;
    assert(views(out@) == all.take(0).filter(usable_origin())) by {
        reveal(Seq::filter);
    }
    while i < allowed.len()
        invariant
            i <= allowed@.len(),
            all == views(allowed@),
            views(out@) == all.take(i as int).filter(usable_origin()),
        decreases allowed@.len() - i,
    {
        proof {
            reveal(Seq::filter);
            assert(all.take(i + 1).drop_last() == all.take(i as int));
            assert(all.take(i + 1).last() == allowed@[i as int]@);
        }
        if is_header_value(allowed[i].as_str()) {
            let ghost before = out@;
            out.push(allowed[i].clone());
            assert(views(out@) == views(before).push(allowed@[i as int]@));
        }
        i += 1;
    }
    assert(all.take(i as int) == all);
    out
}

/// How long the peer connection of a local peer may gather its candidates, in
/// milliseconds.
pub const GATHER_LIMIT_MS: u64 = 5000;

/// How long to wait before its gathering state is looked at again, in milliseconds.
pub const GATHER_PAUSE_MS: u64 = 100;

/// Whether the peer connection has gathered its candidates, by the name of its
/// gathering state.
pub fn gathering_complete(state: &str) -> (r: bool)
    ensures
        r == exists|at: int| stands_at(state@, "Complete"@, at),
{
    let s = chars_of(state);
    let word = chars_of("Complete");
    match find(&s, &word) {
        Some(at) => {
            assert(stands_at(state@, "Complete"@, at as int));
            true
        },
        None => false,
    }
}

/// Takes up the session of a peer that gave the right code, or answers one that did
/// not.
pub fn pair(matched: bool, session_id: String, status: &mut Status) -> (r: Option<Reply>)
    ensures
        if matched {
            r is None && *final(status) == (Status {
                paired: true,
                session_id: Some(session_id),
                ..*old(status)
            })
        } else {
            *final(status) == *old(status) && (r matches Some(reply) && reply.holds(
                403,
                error_body("invalid pairing code"@),
            ))
        },
{
    if matched {
        status.paired = true;
        status.session_id = Some(session_id);
        None
    } else {
        Some(Reply::error(403, "invalid pairing code"))
    }
}

/// The code of a peer that asks for a session on this machine is checked before
/// anything else: with the right one the session is taken up, with any other the
/// request is refused and nothing changes.
pub fn pair_with_code(session_id: String, status: &mut Status) -> (r: Option<Reply>)
    ensures
        if code_matches(session_id@, old(status).pairing_code@) {
            r is None && *final(status) == (Status {
                paired: true,
                session_id: Some(session_id),
                ..*old(status)
            })
        } else {
            *final(status) == *old(status) && (r matches Some(reply) && reply.holds(
                403,
                error_body("invalid pairing code"@),
            ))
        },
        is_ascii_chars(trimmed(session_id@)) && is_ascii_chars(old(status).pairing_code@) ==> (
        r is None) == (ascii_capitals(trimmed(session_id@)) == ascii_capitals(
            old(status).pairing_code@,
        )),
{
    let matched = codes_match(session_id.as_str(), status.pairing_code.as_str());
    pair(matched, session_id, status)
}

/// A step in answering a peer on this machine.
pub enum SignalStep {
    /// Open a peer connection without servers.
    OpenPeer,
    /// Hand this offer to it.
    SetRemote(Description),
    /// Make the answer.
    CreateAnswer,
    /// Hand the answer to the peer connection.
    SetLocal,
    /// Let it gather its candidates, for a limited time.
    Gather,
    /// Read the answer with the candidates.
    ReadLocal,
    /// Send this answer to the request.
    Respond(Reply),
}

/// What came of a step in answering a peer.
pub enum SignalEvent {
    /// It is done.
    Done,
    /// It could not be done; why.
    Failed(String),
    /// The answer with the candidates.
    Answer(String),
}

/// Whether the event is one that the step can have.
pub open spec fn signal_fits(step: SignalStep, event: SignalEvent) -> bool {
    match step {
        SignalStep::Gather => event is Done,
        SignalStep::ReadLocal => event is Answer,
        SignalStep::Respond(_) => false,
        _ => event is Done || event is Failed,
    }
}

/// The body that carries the answer to a peer.
pub open spec fn answer_body(sdp: Seq<char>) -> BodyView {
    BodyView::Object(seq![("type"@, BodyView::Text("answer"@)), ("sdp"@, BodyView::Text(sdp))])
}

/// Whether the step answers the request with this status and this error.
pub open spec fn refuses(step: SignalStep, status: u16, stage: Seq<char>, error: Seq<char>) -> bool {
    step matches SignalStep::Respond(reply) && reply.holds(status, error_body(stage + error))
}

/// Whether `next` is the step that follows when the offer was read: an offer that
/// cannot be read is refused.
pub open spec fn takes_signal_offer(
    read: Result<Description, Seq<char>>,
    next: SignalStep,
) -> bool {
    match read {
        Ok(offer) => next == SignalStep::SetRemote(offer),
        Err(e) => refuses(next, 400, "invalid SDP offer: "@, e),
    }
}

/// Whether `next` is the step that follows when `event` came of `step`, for a peer that
/// offers `sdp`.
pub open spec fn signal_follows(
    sdp: Seq<char>,
    step: SignalStep,
    event: SignalEvent,
    next: SignalStep,
) -> bool {
    match (step, event) {
        (SignalStep::OpenPeer, SignalEvent::Failed(e)) => refuses(
            next,
            500,
            "failed to create peer connection: "@,
            e@,
        ),
        (SignalStep::OpenPeer, _) => takes_signal_offer(offer_read(sdp), next),
        (SignalStep::SetRemote(_), SignalEvent::Failed(e)) => refuses(
            next,
            400,
            "invalid SDP offer: "@,
            e@,
        ),
        (SignalStep::SetRemote(_), _) => next == SignalStep::CreateAnswer,
        (SignalStep::CreateAnswer, SignalEvent::Failed(e)) => refuses(
            next,
            500,
            "failed to create answer: "@,
            e@,
        ),
        (SignalStep::CreateAnswer, _) => next == SignalStep::SetLocal,
        (SignalStep::SetLocal, SignalEvent::Failed(e)) => refuses(
            next,
            500,
            "failed to set local description: "@,
            e@,
        ),
        (SignalStep::SetLocal, _) => next == SignalStep::Gather,
        (SignalStep::Gather, _) => next == SignalStep::ReadLocal,
        (SignalStep::ReadLocal, SignalEvent::Answer(answer)) => next matches SignalStep::Respond(
            reply,
        ) && reply.holds(200, answer_body(answer@)),
        _ => false,
    }
}

fn refusal(status: u16, stage: &str, error: &str) -> (r: SignalStep)
    ensures
        refuses(r, status, stage@, error@),
{
    let message = concat(stage, error);
    SignalStep::Respond(Reply::error(status, message.as_str()))
}

/// The step that follows when the offer was read.
pub fn take_signal_offer(read: Result<Description, String>) -> (r: SignalStep)
    ensures
        match read {
            Ok(offer) => r == SignalStep::SetRemote(offer),
            Err(e) => refuses(r, 400, "invalid SDP offer: "@, e@),
        },
{
    match read {
        Ok(offer) => SignalStep::SetRemote(offer),
        Err(e) => refusal(400, "invalid SDP offer: ", e.as_str()),
    }
}

/// The step that follows when `event` came of `step`, for a peer that offers `sdp`.
pub fn signal_step(sdp: &str, step: SignalStep, event: SignalEvent) -> (r: SignalStep)
    requires
        signal_fits(step, event),
    ensures
        signal_follows(sdp@, step, event, r),
{
    match step {
        SignalStep::OpenPeer => match event {
            SignalEvent::Failed(e) => refusal(500, "failed to create peer connection: ", e.as_str()),
            _ => take_signal_offer(read_offer(sdp.to_owned())),
        },
        SignalStep::SetRemote(_) => match event {
            SignalEvent::Failed(e) => refusal(400, "invalid SDP offer: ", e.as_str()),
            _ => SignalStep::CreateAnswer,
        },
        SignalStep::CreateAnswer => match event {
            SignalEvent::Failed(e) => refusal(500, "failed to create answer: ", e.as_str()),
            _ => SignalStep::SetLocal,
        },
        SignalStep::SetLocal => match event {
            SignalEvent::Failed(e) => refusal(
                500,
                "failed to set local description: ",
                e.as_str(),
            ),
            _ => SignalStep::Gather,
        },
        SignalStep::Gather => SignalStep::ReadLocal,
        SignalStep::ReadLocal => match event {
            SignalEvent::Answer(answer) => SignalStep::Respond(
                Reply::two(
                    200,
                    "type",
                    Body::Text("answer".to_owned()),
                    "sdp",
                    Body::Text(answer),
                ),
            ),
            _ => SignalStep::ReadLocal,
        },
        SignalStep::Respond(reply) => SignalStep::Respond(reply),
    }
}

/// The messages of a frame that was read as JSON, on the channel of a peer on this
/// machine.
pub fn channel_messages(frame: Option<Json>, osc: &OscConfig) -> (r: Option<Vec<BridgeMessage>>)
    ensures
        match frame {
            Some(json) => r matches Some(messages) && message_views(messages@) == inbound_messages(
                json@,
                osc.prefix@,
                osc.flatten,
            ),
            None => r is None,
        },
{
    match frame {
        Some(json) => Some(map_inbound(&json, osc)),
        None => None,
    }
}

/// The messages of one frame on the channel of a peer on this machine, or nothing
/// where it is not JSON.
pub fn forward_frame(data: &[u8], osc: &OscConfig) -> (r: Option<Vec<BridgeMessage>>)
    ensures
        match parsed_tree(data@) {
            Some(t) => r matches Some(messages) && message_views(messages@) == inbound_messages(
                t,
                osc.prefix@,
                osc.flatten,
            ),
            None => r is None,
        },
{
    channel_messages(parse(data), osc)
}

/// A peer that gives the code that is shown is let in, where that code has no white
/// space around it.
pub proof fn law_shown_code_is_accepted(code: Seq<char>)
    requires
        trimmed(code) == code,
    ensures
        code_matches(code, code),
{
}

/// A code of the bridge's own has no white space around it.
pub proof fn law_pairing_code_is_bare(code: Seq<char>)
    requires
        is_pairing_code(code),
    ensures
        trimmed(code) == code,
{
    reveal_strlit("ABCDEFGHJKLMNPQRSTUVWXYZ23456789");
    assert forall|i: int| 0 <= i < code.len() implies !white_space(#[trigger] code[i]) by {
        assert(CODE_CHARS@.contains(code[i]));
    }
}

/// A pairing code is not let in by another one: what remains of the one when its case
/// and the white space around it are passed over is not what remains of the other.
pub proof fn law_pairing_codes_are_told_apart(given: Seq<char>, expected: Seq<char>)
    requires
        is_pairing_code(given),
        is_pairing_code(expected),
        given != expected,
    ensures
        is_ascii_chars(trimmed(given)),
        is_ascii_chars(expected),
        ascii_capitals(trimmed(given)) != ascii_capitals(expected),
{
    law_pairing_code_is_bare(given);
    lemma_capitals_of_code(given);
    lemma_capitals_of_code(expected);
}

proof fn lemma_capitals_of_code(code: Seq<char>)
    requires
        is_pairing_code(code),
    ensures
        is_ascii_chars(code),
        ascii_capitals(code) == code,
{
    assert forall|i: int| 0 <= i < code.len() implies ascii_capital(#[trigger] code[i]) == code[i]
        && code[i] as int <= 'Z' as int by {
        law_codes_are_unambiguous(code, i);
    }
    assert(ascii_capitals(code) =~= code);
}

/// No pairing code has a character that is easy to take for another: neither the
/// letters O and I nor the digits zero and one.
pub proof fn law_codes_are_unambiguous(code: Seq<char>, i: int)
    requires
        is_pairing_code(code),
        0 <= i < code.len(),
    ensures
        code[i] != 'O',
        code[i] != '0',
        code[i] != 'I',
        code[i] != '1',
        'A' <= code[i] <= 'Z' || '2' <= code[i] <= '9',
{
    reveal_strlit("ABCDEFGHJKLMNPQRSTUVWXYZ23456789");
    assert(CODE_CHARS@.contains(code[i]));
}

/// A setting that a request names has the value that is named, whatever it was before;
/// one that it does not name stays as it was. This holds of each setting by itself.
pub proof fn law_named_setting_takes_its_value(osc: OscConfig, req: OscReq)
    ensures
        req.enabled matches Some(v) ==> with_changes(osc, req).enabled == v,
        req.host matches Some(v) ==> with_changes(osc, req).host == v,
        req.port matches Some(v) ==> with_changes(osc, req).port == v,
        req.prefix matches Some(v) ==> with_changes(osc, req).prefix == v,
        req.flatten matches Some(v) ==> with_changes(osc, req).flatten == v,
        req.enabled is None ==> with_changes(osc, req).enabled == osc.enabled,
        req.host is None ==> with_changes(osc, req).host == osc.host,
        req.port is None ==> with_changes(osc, req).port == osc.port,
        req.prefix is None ==> with_changes(osc, req).prefix == osc.prefix,
        req.flatten is None ==> with_changes(osc, req).flatten == osc.flatten,
{
}

/// Of two requests one after the other, the later one wins in every setting that it
/// names.
pub proof fn law_later_request_wins(osc: OscConfig, first: OscReq, second: OscReq)
    requires
        second.enabled is Some,
        second.host is Some,
        second.port is Some,
        second.prefix is Some,
        second.flatten is Some,
    ensures
        with_changes(with_changes(osc, first), second) == with_changes(osc, second),
{
}

/// White space round the code that a peer gives makes no difference.
pub proof fn law_white_space_round_a_code_is_passed_over(
    before: Seq<char>,
    given: Seq<char>,
    behind: Seq<char>,
    expected: Seq<char>,
)
    requires
        forall|i: int| 0 <= i < before.len() ==> white_space(#[trigger] before[i]),
        forall|i: int| 0 <= i < behind.len() ==> white_space(#[trigger] behind[i]),
    ensures
        code_matches(before + given + behind, expected) == code_matches(given, expected),
{
    law_outer_white_space_is_lost(before, given, behind);
}

/// A code is accepted where it has the same capitals as the expected one, and nowhere
/// else: two expected codes that accept the same code have the same capitals.
pub proof fn law_capitals_decide(given: Seq<char>, one: Seq<char>, other: Seq<char>)
    requires
        code_matches(given, one),
    ensures
        code_matches(given, other) <==> capitals(one) == capitals(other),
        capitals(trimmed(given)) == capitals(one),
{
}

/// A small ASCII letter has the capital that stands 32 places before it; any other
/// character has itself.
pub proof fn law_ascii_capitals(s: Seq<char>, i: int)
    requires
        0 <= i < s.len(),
    ensures
        ascii_capitals(s).len() == s.len(),
        'a' <= s[i] <= 'z' ==> ascii_capitals(s)[i] as int + 32 == s[i] as int,
        !('a' <= s[i] <= 'z') ==> ascii_capitals(s)[i] == s[i],
{
}

/// The characters of pairing codes are the capitals without O and I and the digits
/// without zero and one, each once.
pub proof fn law_code_characters(c: char)
    ensures
        CODE_CHARS@.contains(c) <==> ('A' <= c <= 'Z' && c != 'O' && c != 'I') || '2' <= c <= '9',
        CODE_CHARS@.no_duplicates(),
        CODE_CHARS@.len() == 32,
{
    reveal_strlit("ABCDEFGHJKLMNPQRSTUVWXYZ23456789");
    if ('A' <= c <= 'Z' && c != 'O' && c != 'I') || '2' <= c <= '9' {
        let i = if c <= '9' {
            24 + (c as int - '2' as int)
        } else if c <= 'H' {
            c as int - 'A' as int
        } else if c <= 'N' {
            c as int - 'A' as int - 1
        } else {
            c as int - 'A' as int - 2
        };
        assert(0 <= i < 32);
        assert(CODE_CHARS@[i] == c);
    }
}

/// A pairing code has six characters, each of those that codes are made of.
pub proof fn law_pairing_code_has_six_characters(code: Seq<char>)
    ensures
        is_pairing_code(code) <==> code.len() == 6 && (forall|i: int|
            0 <= i < code.len() ==> CODE_CHARS@.contains(#[trigger] code[i])),
{
}

/// Whether each byte is a tab, a printable ASCII character or beyond ASCII.
pub open spec fn fits_a_header(bytes: Seq<u8>) -> bool {
    forall|i: int|
        0 <= i < bytes.len() ==> (#[trigger] bytes[i] == 9 || (32 <= bytes[i] && bytes[i] <= 126)
            || bytes[i] >= 128)
}

/// Every allowed origin that can be named in a header is used, and no other; they keep
/// their order, and of two lists one behind the other what is used is what is used of
/// each.
pub proof fn law_allowed_origins_are_used(
    a: Seq<Seq<char>>,
    b: Seq<Seq<char>>,
    o: Seq<char>,
)
    ensures
        (a + b).filter(usable_origin()) == a.filter(usable_origin()) + b.filter(usable_origin()),
        seq![o].filter(usable_origin()) == (if fits_a_header(encode_utf8(o)) {
            seq![o]
        } else {
            Seq::empty()
        }),
{
    lemma_filter_of_sum(a, b, usable_origin());
    reveal(Seq::filter);
    let sole = seq![o];
    let bytes = encode_utf8(o);
    assert(sole.drop_last() =~= Seq::<Seq<char>>::empty());
    assert(sole.drop_last().filter(usable_origin()) =~= Seq::<Seq<char>>::empty());
    if fits_a_header(bytes) {
        assert(header_text(bytes));
        assert(sole.filter(usable_origin()) =~= sole);
    } else {
        assert(sole.filter(usable_origin()) =~= Seq::<Seq<char>>::empty());
    }
}

/// What the answers of the control API carry: a success, an error with its message, the
/// answer to a peer, the state of the bridge, or the settings of the OSC adapter.
pub proof fn law_answers_carry_their_content(
    message: Seq<char>,
    status: Status,
    cfg: Config,
    discovered: Seq<Discovered>,
)
    ensures
        ok_body() == BodyView::Object(seq![("ok"@, BodyView::Bool(true))]),
        error_body(message) == BodyView::Object(seq![("error"@, BodyView::Text(message))]),
        shows(answer_body(message), "type"@, BodyView::Text("answer"@)),
        shows(answer_body(message), "sdp"@, BodyView::Text(message)),
        shows(status_body(status, cfg, discovered), "status"@, shown_state(status)),
        shows(status_body(status, cfg, discovered), "config"@, shown_config(cfg)),
        shows(
            status_body(status, cfg, discovered),
            "discovered"@,
            shown_destinations(discovered),
        ),
        shows(osc_body(cfg.osc), "ok"@, BodyView::Bool(true)),
        shows(osc_body(cfg.osc), "osc"@, shown_osc(cfg.osc)),
        answer_body(message)->Object_0.len() == 2,
        status_body(status, cfg, discovered)->Object_0.len() == 3,
        osc_body(cfg.osc)->Object_0.len() == 2,
{
    lemma_shows(answer_body(message), 0);
    lemma_shows(answer_body(message), 1);
    lemma_shows(status_body(status, cfg, discovered), 0);
    lemma_shows(status_body(status, cfg, discovered), 1);
    lemma_shows(status_body(status, cfg, discovered), 2);
    lemma_shows(osc_body(cfg.osc), 0);
    lemma_shows(osc_body(cfg.osc), 1);
}

/// An answer has its status and its body, both.
pub proof fn law_answer_has_status_and_body(reply: Reply, status: u16, body: BodyView)
    ensures
        reply.holds(status, body) <==> reply.status == status && reply.body@ == body,
{
}

/// A step in answering a local peer that fails ends with an error: its status and its
/// message name the stage, and the message goes on with the fault.
pub proof fn law_failed_signal_is_answered(
    sdp: Seq<char>,
    step: SignalStep,
    fault: String,
    next: SignalStep,
)
    requires
        signal_fits(step, SignalEvent::Failed(fault)),
        signal_follows(sdp, step, SignalEvent::Failed(fault), next),
    ensures
        next matches SignalStep::Respond(reply) && reply.status == (if step is SetRemote {
            400u16
        } else {
            500u16
        }) && reply.body@ == BodyView::Object(
            seq![
                (
                    "error"@,
                    BodyView::Text(
                        (match step {
                            SignalStep::OpenPeer => "failed to create peer connection: "@,
                            SignalStep::SetRemote(_) => "invalid SDP offer: "@,
                            SignalStep::CreateAnswer => "failed to create answer: "@,
                            _ => "failed to set local description: "@,
                        }) + fault@,
                    ),
                ),
            ],
        ),
{
}

/// A step in answering a local peer that is done leads on to the next: the offer is
/// handed on as it reads, or refused with its fault where it cannot be read.
pub proof fn law_done_signal_leads_on(sdp: Seq<char>, step: SignalStep, next: SignalStep)
    requires
        signal_fits(step, SignalEvent::Done),
        signal_follows(sdp, step, SignalEvent::Done, next),
    ensures
        step is OpenPeer ==> (offer_read(sdp) matches Ok(d) ==> next == SignalStep::SetRemote(d)),
        step is OpenPeer ==> (offer_read(sdp) matches Err(fault) ==> (next matches SignalStep::Respond(
            reply,
        ) && reply.status == 400 && reply.body@ == BodyView::Object(
            seq![("error"@, BodyView::Text("invalid SDP offer: "@ + fault))],
        ))),
        step is SetRemote ==> next == SignalStep::CreateAnswer,
        step is CreateAnswer ==> next == SignalStep::SetLocal,
        step is SetLocal ==> next == SignalStep::Gather,
        step is Gather ==> next == SignalStep::ReadLocal,
{
}

/// A local peer is sent the answer that was read, as it is.
pub proof fn law_answer_is_sent_as_it_is(sdp: Seq<char>, answer: String, next: SignalStep)
    requires
        signal_follows(sdp, SignalStep::ReadLocal, SignalEvent::Answer(answer), next),
    ensures
        next matches SignalStep::Respond(reply) && reply.status == 200 && shows(
            reply.body@,
            "type"@,
            BodyView::Text("answer"@),
        ) && shows(reply.body@, "sdp"@, BodyView::Text(answer@)),
{
    lemma_shows(answer_body(answer@), 0);
    lemma_shows(answer_body(answer@), 1);
}

} // verus!
