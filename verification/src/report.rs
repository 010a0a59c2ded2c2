//! What the control API shows of the bridge, as JSON bodies.

use crate::body::{entry_views, item_views, push_entry, text_or_null, texts, Body, BodyView};
use crate::config::{Config, OscConfig};
use crate::state::{Discovered, PeerInfo, Status};
use vstd::prelude::*;

verus! {

/// What is shown of the OSC adapter.
pub open spec fn shown_osc(osc: OscConfig) -> BodyView {
    BodyView::Object(
        seq![
            ("enabled"@, BodyView::Bool(osc.enabled)),
            ("host"@, BodyView::Text(osc.host@)),
            ("port"@, BodyView::Natural(osc.port as u64)),
            ("prefix"@, BodyView::Text(osc.prefix@)),
            ("flatten"@, BodyView::Bool(osc.flatten)),
        ],
    )
}

/// What is shown of the configuration.
pub open spec fn shown_config(cfg: Config) -> BodyView {
    BodyView::Object(
        seq![
            ("signaling_url"@, BodyView::Text(cfg.signaling_url@)),
            ("session_id"@, text_or_null(cfg.session_id)),
            ("control_port"@, BodyView::Natural(cfg.control_port as u64)),
            ("auto_reconnect"@, BodyView::Bool(cfg.auto_reconnect)),
            ("allowed_origins"@, texts(cfg.allowed_origins@)),
            ("osc"@, shown_osc(cfg.osc)),
        ],
    )
}

/// What is shown of a peer that asks to connect.
pub open spec fn shown_peer(peer: PeerInfo) -> BodyView {
    BodyView::Object(
        seq![
            ("name"@, text_or_null(peer.name)),
            ("origin"@, text_or_null(peer.origin)),
            ("user_agent"@, text_or_null(peer.user_agent)),
            ("ip_addresses"@, texts(peer.ip_addresses@)),
            ("candidate_types"@, texts(peer.candidate_types@)),
            ("requested_ms"@, BodyView::Natural(peer.requested_ms)),
        ],
    )
}

/// What is shown of the connection.
pub open spec fn shown_state(status: Status) -> BodyView {
    BodyView::Object(
        seq![
            ("pairing_code"@, BodyView::Text(status.pairing_code@)),
            ("paired"@, BodyView::Bool(status.paired)),
            ("session_id"@, text_or_null(status.session_id)),
            ("connected"@, BodyView::Bool(status.connected)),
            ("ended"@, BodyView::Bool(status.ended)),
            ("last_error"@, text_or_null(status.last_error)),
            ("frames_in"@, BodyView::Natural(status.frames_in)),
            ("messages_out"@, BodyView::Natural(status.messages_out)),
            (
                "last_frame_ms"@,
                match status.last_frame_ms {
                    Some(ms) => BodyView::Natural(ms),
                    None => BodyView::Null,
                },
            ),
            ("awaiting_confirmation"@, BodyView::Bool(status.awaiting_confirmation)),
            (
                "pending_peer"@,
                match status.pending_peer {
                    Some(peer) => shown_peer(peer),
                    None => BodyView::Null,
                },
            ),
            ("confirmed"@, BodyView::Bool(status.confirmed)),
        ],
    )
}

/// What is shown of an OSC destination.
pub open spec fn shown_destination(d: Discovered) -> BodyView {
    BodyView::Object(
        seq![
            ("name"@, BodyView::Text(d.name@)),
            ("host"@, BodyView::Text(d.host@)),
            ("port"@, BodyView::Natural(d.port as u64)),
        ],
    )
}

/// What is shown of the OSC destinations.
pub open spec fn shown_destinations(list: Seq<Discovered>) -> BodyView {
    BodyView::Array(list.map_values(|d: Discovered| shown_destination(d)))
}

/// Shows the OSC adapter.
pub fn show_osc(osc: &OscConfig) -> (r: Body)
    ensures
        r@ == shown_osc(*osc),
{
    let mut e: Vec<(String, Body)> = Vec::new();
    push_entry(&mut e, "enabled", Body::Bool(osc.enabled));
    push_entry(&mut e, "host", Body::Text(osc.host.clone()));
    push_entry(&mut e, "port", Body::Natural(osc.port as u64));
    push_entry(&mut e, "prefix", Body::Text(osc.prefix.clone()));
    push_entry(&mut e, "flatten", Body::Bool(osc.flatten));
    assert(entry_views(e@) == shown_osc(*osc)->Object_0);
    Body::object(e)
}

/// Shows the configuration.
pub fn show_config(cfg: &Config) -> (r: Body)
    ensures
        r@ == shown_config(*cfg),
{
    let mut e: Vec<(String, Body)> = Vec::new();
    push_entry(&mut e, "signaling_url", Body::Text(cfg.signaling_url.clone()));
    push_entry(&mut e, "session_id", Body::text_or_null(&cfg.session_id));
    push_entry(&mut e, "control_port", Body::Natural(cfg.control_port as u64));
    push_entry(&mut e, "auto_reconnect", Body::Bool(cfg.auto_reconnect));
    push_entry(&mut e, "allowed_origins", Body::texts(&cfg.allowed_origins));
    push_entry(&mut e, "osc", show_osc(&cfg.osc));
    assert(entry_views(e@) == shown_config(*cfg)->Object_0);
    Body::object(e)
}

/// Shows a peer that asks to connect.
pub fn show_peer(peer: &PeerInfo) -> (r: Body)
    ensures
        r@ == shown_peer(*peer),
{
    let mut e: Vec<(String, Body)> = Vec::new();
    push_entry(&mut e, "name", Body::text_or_null(&peer.name));
    push_entry(&mut e, "origin", Body::text_or_null(&peer.origin));
    push_entry(&mut e, "user_agent", Body::text_or_null(&peer.user_agent));
    push_entry(&mut e, "ip_addresses", Body::texts(&peer.ip_addresses));
    push_entry(&mut e, "candidate_types", Body::texts(&peer.candidate_types));
    push_entry(&mut e, "requested_ms", Body::Natural(peer.requested_ms));
    assert(entry_views(e@) == shown_peer(*peer)->Object_0);
    Body::object(e)
}

/// Shows the connection.
pub fn show_state(status: &Status) -> (r: Body)
    ensures
        r@ == shown_state(*status),
{
    let last_frame = match status.last_frame_ms {
        Some(ms) => Body::Natural(ms),
        None => Body::Null,
    };
    let pending = match &status.pending_peer {
        Some(peer) => show_peer(peer),
        None => Body::Null,
    };
    let mut e: Vec<(String, Body)> = Vec::new();
    push_entry(&mut e, "pairing_code", Body::Text(status.pairing_code.clone()));
    push_entry(&mut e, "paired", Body::Bool(status.paired));
    push_entry(&mut e, "session_id", Body::text_or_null(&status.session_id));
    push_entry(&mut e, "connected", Body::Bool(status.connected));
    push_entry(&mut e, "ended", Body::Bool(status.ended));
    push_entry(&mut e, "last_error", Body::text_or_null(&status.last_error));
    push_entry(&mut e, "frames_in", Body::Natural(status.frames_in));
    push_entry(&mut e, "messages_out", Body::Natural(status.messages_out));
    push_entry(&mut e, "last_frame_ms", last_frame);
    push_entry(&mut e, "awaiting_confirmation", Body::Bool(status.awaiting_confirmation));
    push_entry(&mut e, "pending_peer", pending);
    push_entry(&mut e, "confirmed", Body::Bool(status.confirmed));
    assert(entry_views(e@) == shown_state(*status)->Object_0);
    Body::object(e)
}

/// Shows an OSC destination.
pub fn show_destination(d: &Discovered) -> (r: Body)
    ensures
        r@ == shown_destination(*d),
{
    let mut e: Vec<(String, Body)> = Vec::new();
    push_entry(&mut e, "name", Body::Text(d.name.clone()));
    push_entry(&mut e, "host", Body::Text(d.host.clone()));
    push_entry(&mut e, "port", Body::Natural(d.port as u64));
    assert(entry_views(e@) == shown_destination(*d)->Object_0);
    Body::object(e)
}

/// Shows the OSC destinations.
pub fn show_destinations(list: &Vec<Discovered>) -> (r: Body)
    ensures
        r@ == shown_destinations(list@),
{
    let ghost all = list@.map_values(|d: Discovered| shown_destination(d));
    let mut items: Vec<Body> = Vec::new();
    let mut i: usize = 0;
    while i < list.len()
        invariant
            i <= list@.len(),
            all == list@.map_values(|d: Discovered| shown_destination(d)),
            items@.len() == i,
            forall|k: int| 0 <= k < i ==> (#[trigger] items@[k])@ == all[k],
        decreases list@.len() - i,
    {
        items.push(show_destination(&list[i]));
        i += 1;
    }
    assert(item_views(items@) == all);
    Body::array(items)
}

/// Whether the object has an entry of that name with that value.
pub open spec fn shows(body: BodyView, name: Seq<char>, value: BodyView) -> bool {
    body matches BodyView::Object(entries) && entries.contains((name, value))
}

/// An object shows each of its entries.
pub proof fn lemma_shows(body: BodyView, i: int)
    requires
        body is Object,
        0 <= i < body->Object_0.len(),
    ensures
        shows(body, body->Object_0[i].0, body->Object_0[i].1),
{
    assert(body->Object_0.contains(body->Object_0[i]));
}

/// Every setting of the OSC adapter is shown under its name, as it is.
pub proof fn law_every_osc_setting_is_shown(osc: OscConfig)
    ensures
        shows(shown_osc(osc), "enabled"@, BodyView::Bool(osc.enabled)),
        shows(shown_osc(osc), "host"@, BodyView::Text(osc.host@)),
        shows(shown_osc(osc), "port"@, BodyView::Natural(osc.port as u64)),
        shows(shown_osc(osc), "prefix"@, BodyView::Text(osc.prefix@)),
        shows(shown_osc(osc), "flatten"@, BodyView::Bool(osc.flatten)),
        shown_osc(osc)->Object_0.len() == 5,
{
    let body = shown_osc(osc);
    lemma_shows(body, 0);
    lemma_shows(body, 1);
    lemma_shows(body, 2);
    lemma_shows(body, 3);
    lemma_shows(body, 4);
}

/// Every setting of the bridge is shown under its name, as it is.
pub proof fn law_every_setting_is_shown(cfg: Config)
    ensures
        shows(shown_config(cfg), "signaling_url"@, BodyView::Text(cfg.signaling_url@)),
        shows(shown_config(cfg), "session_id"@, text_or_null(cfg.session_id)),
        shows(shown_config(cfg), "control_port"@, BodyView::Natural(cfg.control_port as u64)),
        shows(shown_config(cfg), "auto_reconnect"@, BodyView::Bool(cfg.auto_reconnect)),
        shows(shown_config(cfg), "allowed_origins"@, texts(cfg.allowed_origins@)),
        shows(shown_config(cfg), "osc"@, shown_osc(cfg.osc)),
        shown_config(cfg)->Object_0.len() == 6,
{
    let body = shown_config(cfg);
    lemma_shows(body, 0);
    lemma_shows(body, 1);
    lemma_shows(body, 2);
    lemma_shows(body, 3);
    lemma_shows(body, 4);
    lemma_shows(body, 5);
}

/// Everything that is known of a peer that asks to connect is shown under its name, as
/// it is.
pub proof fn law_everything_of_the_peer_is_shown(peer: PeerInfo)
    ensures
        shows(shown_peer(peer), "name"@, text_or_null(peer.name)),
        shows(shown_peer(peer), "origin"@, text_or_null(peer.origin)),
        shows(shown_peer(peer), "user_agent"@, text_or_null(peer.user_agent)),
        shows(shown_peer(peer), "ip_addresses"@, texts(peer.ip_addresses@)),
        shows(shown_peer(peer), "candidate_types"@, texts(peer.candidate_types@)),
        shows(shown_peer(peer), "requested_ms"@, BodyView::Natural(peer.requested_ms)),
        shown_peer(peer)->Object_0.len() == 6,
{
    let body = shown_peer(peer);
    lemma_shows(body, 0);
    lemma_shows(body, 1);
    lemma_shows(body, 2);
    lemma_shows(body, 3);
    lemma_shows(body, 4);
    lemma_shows(body, 5);
}

/// Everything of the status is shown under its name, as it is, and what is missing as
/// `null`.
pub proof fn law_everything_of_the_status_is_shown(status: Status)
    ensures
        shows(shown_state(status), "pairing_code"@, BodyView::Text(status.pairing_code@)),
        shows(shown_state(status), "paired"@, BodyView::Bool(status.paired)),
        shows(shown_state(status), "session_id"@, text_or_null(status.session_id)),
        shows(shown_state(status), "connected"@, BodyView::Bool(status.connected)),
        shows(shown_state(status), "ended"@, BodyView::Bool(status.ended)),
        shows(shown_state(status), "last_error"@, text_or_null(status.last_error)),
        shows(shown_state(status), "frames_in"@, BodyView::Natural(status.frames_in)),
        shows(shown_state(status), "messages_out"@, BodyView::Natural(status.messages_out)),
        status.last_frame_ms matches Some(ms) ==> shows(
            shown_state(status),
            "last_frame_ms"@,
            BodyView::Natural(ms),
        ),
        status.last_frame_ms is None ==> shows(
            shown_state(status),
            "last_frame_ms"@,
            BodyView::Null,
        ),
        shows(
            shown_state(status),
            "awaiting_confirmation"@,
            BodyView::Bool(status.awaiting_confirmation),
        ),
        status.pending_peer matches Some(peer) ==> shows(
            shown_state(status),
            "pending_peer"@,
            shown_peer(peer),
        ),
        status.pending_peer is None ==> shows(shown_state(status), "pending_peer"@, BodyView::Null),
        shows(shown_state(status), "confirmed"@, BodyView::Bool(status.confirmed)),
        shown_state(status)->Object_0.len() == 12,
{
    let body = shown_state(status);
    lemma_shows(body, 0);
    lemma_shows(body, 1);
    lemma_shows(body, 2);
    lemma_shows(body, 3);
    lemma_shows(body, 4);
    lemma_shows(body, 5);
    lemma_shows(body, 6);
    lemma_shows(body, 7);
    lemma_shows(body, 8);
    lemma_shows(body, 9);
    lemma_shows(body, 10);
    lemma_shows(body, 11);
}

/// Every destination is shown in its place, with its name, its host and its port.
pub proof fn law_every_destination_is_shown(list: Seq<Discovered>, i: int)
    requires
        0 <= i < list.len(),
    ensures
        destinations_shown(list).len() == list.len(),
        shows(destinations_shown(list)[i], "name"@, BodyView::Text(list[i].name@)),
        shows(destinations_shown(list)[i], "host"@, BodyView::Text(list[i].host@)),
        shows(destinations_shown(list)[i], "port"@, BodyView::Natural(list[i].port as u64)),
        destinations_shown(list)[i]->Object_0.len() == 3,
{
    let body = shown_destination(list[i]);
    assert(destinations_shown(list)[i] == body);
    lemma_shows(body, 0);
    lemma_shows(body, 1);
    lemma_shows(body, 2);
}

/// The items of the list of destinations that is shown.
pub open spec fn destinations_shown(list: Seq<Discovered>) -> Seq<BodyView> {
    shown_destinations(list)->Array_0
}

} // verus!
