//! Reading the offer of a peer.

use vstd::prelude::*;

verus! {

/// The session description of the WebRTC stack.
#[verifier::external_type_specification]
#[verifier::external_body]
pub struct ExDescription(
    ::webrtc::peer_connection::sdp::session_description::RTCSessionDescription,
);

/// A session description that a peer connection takes.
pub type Description = ::webrtc::peer_connection::sdp::session_description::RTCSessionDescription;

/// What `RTCSessionDescription::offer` makes of a text: a description, or the message
/// of the error where the text cannot be read.
pub uninterp spec fn offer_read(sdp: Seq<char>) -> Result<Description, Seq<char>>;

/// `RTCSessionDescription::offer` reads an offer in memory: what comes of it, the
/// message of its error included, is a function of the text alone.
#[verifier::external_body]
pub(crate) fn read_offer(sdp: String) -> (r: Result<Description, String>)
    ensures
        match r {
            Ok(d) => offer_read(sdp@) == Ok::<Description, Seq<char>>(d),
            Err(e) => offer_read(sdp@) == Err::<Description, Seq<char>>(e@),
        },
{
    ::webrtc::peer_connection::sdp::session_description::RTCSessionDescription::offer(sdp)
        .map_err(|e| e.to_string())
}

} // verus!
