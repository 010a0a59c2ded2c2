//! The set-up of one session, from the peer connection to the answer that is posted,
//! as a sequence of steps. Whoever carries out a step reports what came of it and
//! learns which step follows.

use crate::state::Status;
use crate::text::{
    concat, concat3, law_trimmed_end_of_is_the_start, trim_end_of, trimmed_end_of, views,
};
use crate::transport::offer::{offer_read, read_offer, Description};
use crate::transport::peer::{build_peer_info, describes, PeerMeta};
use crate::transport::webrtc::{
    is_success, server_views, success, IceServer, IceServerView, SessionEnd,
};
use vstd::prelude::*;

verus! {

/// The address at which the offer of a session is asked for.
pub open spec fn offer_address(base: Seq<char>, session_id: Seq<char>) -> Seq<char> {
    base + "/v1/signal/"@ + session_id + "/offer"@
}

/// The address to which the answer of a session is posted.
pub open spec fn answer_address(base: Seq<char>, session_id: Seq<char>) -> Seq<char> {
    base + "/v1/signal/"@ + session_id + "/answer"@
}

/// The address at which the offer of a session is asked for.
pub fn offer_url(base: &str, session_id: &str) -> (r: String)
    ensures
        r@ == offer_address(base@, session_id@),
{
    let room = concat3(base, "/v1/signal/", session_id);
    concat(room.as_str(), "/offer")
}

/// The address to which the answer of a session is posted.
pub fn answer_url(base: &str, session_id: &str) -> (r: String)
    ensures
        r@ == answer_address(base@, session_id@),
{
    let room = concat3(base, "/v1/signal/", session_id);
    concat(room.as_str(), "/answer")
}

/// The offer of a peer.
pub struct OfferResp {
    /// What it offers; empty where it offers nothing yet.
    pub sdp: String,
    /// What it says of itself.
    pub peer: Option<PeerMeta>,
}

/// How often the offer is asked for before it is given up.
pub const OFFER_ATTEMPTS: u32 = 180;

/// How long to wait between two requests, in milliseconds.
pub const OFFER_WAIT_MS: u64 = 1000;

/// Whether an answer with this status may carry an offer: any success that has a
/// body.
pub open spec fn carries_offer(status: u16) -> bool {
    success(status) && status != 204
}

/// Whether an answer with this status may carry an offer.
pub fn may_carry_offer(status: u16) -> (r: bool)
    ensures
        r == carries_offer(status),
{
    is_success(status) && status != 204
}

/// What follows a request for the offer.
pub enum Poll {
    /// The offer is there.
    Found(String, Option<PeerMeta>),
    /// It is not there yet: wait that many milliseconds and ask again.
    Again(u64),
    /// It never came: wait that many milliseconds and give up, for this reason.
    GiveUp(u64, String),
}

/// Whether `next` is what follows request number `attempt`, counted from zero, which
/// was answered with `status` and `body`.
pub open spec fn polled(attempt: u32, status: u16, body: Option<OfferResp>, next: Poll) -> bool {
    if carries_offer(status) && (body matches Some(offer) && offer.sdp@.len() > 0) {
        next == Poll::Found(body->0.sdp, body->0.peer)
    } else if attempt + 1 < OFFER_ATTEMPTS {
        next == Poll::Again(OFFER_WAIT_MS)
    } else {
        next matches Poll::GiveUp(wait, e) && wait == OFFER_WAIT_MS && e@
            == "timed out waiting for offer"@
    }
}

/// What follows request number `attempt`, counted from zero, for the offer, which was
/// answered with `status` and, where it could be read, `body`.
pub fn fetch_offer(attempt: u32, status: u16, body: Option<OfferResp>) -> (r: Poll)
    requires
        attempt < OFFER_ATTEMPTS,
    ensures
        polled(attempt, status, body, r),
{
    if may_carry_offer(status) {
        if let Some(offer) = body {
            if !offer.sdp.as_str().is_empty() {
                return Poll::Found(offer.sdp, offer.peer);
            }
        }
    }
    if attempt + 1 < OFFER_ATTEMPTS {
        Poll::Again(OFFER_WAIT_MS)
    } else {
        Poll::GiveUp(OFFER_WAIT_MS, "timed out waiting for offer".to_owned())
    }
}

/// The offer is awaited for three minutes: with each further request a second has gone
/// by, and none follows once they are over.
pub proof fn law_polling_lasts_three_minutes(
    attempt: u32,
    status: u16,
    body: Option<OfferResp>,
    next: Poll,
)
    requires
        attempt < OFFER_ATTEMPTS,
        polled(attempt, status, body, next),
    ensures
        next matches Poll::Again(wait) ==> wait == 1000 && (attempt + 1) * wait < 180000,
        next matches Poll::GiveUp(wait, _) ==> wait == 1000 && (attempt + 1) * wait == 180000,
{
}

/// What came of posting the answer, by the status of the reply and its text.
pub fn post_answer(status: u16, text: &str) -> (r: Result<(), String>)
    ensures
        if success(status) {
            r is Ok
        } else {
            r matches Err(e) && e@ == "signaling rejected answer ("@ + text@ + ")"@
        },
{
    if is_success(status) {
        Ok(())
    } else {
        Err(concat3("signaling rejected answer (", text, ")"))
    }
}

/// The session that is to be set up.
pub struct SessionPlan {
    /// The signaling endpoint.
    pub signaling_url: String,
    /// The code of the session.
    pub session_id: String,
    /// The servers that came with the session.
    pub ice_servers: Vec<IceServer>,
}

/// The server that is used where none came with the session.
pub open spec fn fallback_server() -> IceServerView {
    IceServerView {
        urls: seq!["stun:stun.l.google.com:19302"@],
        username: Seq::empty(),
        credential: Seq::empty(),
    }
}

impl SessionPlan {
    /// The signaling endpoint without the slashes at its end.
    pub open spec fn base(self) -> Seq<char> {
        trimmed_end_of(self.signaling_url@, '/')
    }

    /// The servers to use.
    pub open spec fn servers(self) -> Seq<IceServerView> {
        if self.ice_servers@.len() == 0 {
            seq![fallback_server()]
        } else {
            server_views(self.ice_servers@)
        }
    }

    fn servers_to_use(&self) -> (r: Vec<IceServer>)
        ensures
            server_views(r@) == self.servers(),
    {
        let mut out: Vec<IceServer> = Vec::new();
        if self.ice_servers.len() == 0 {
            let mut urls: Vec<String> = Vec::new();
            urls.push("stun:stun.l.google.com:19302".to_owned());
            assert(views(urls@) == seq!["stun:stun.l.google.com:19302"@]);
            let server = IceServer { urls, username: String::new(), credential: String::new() };
            out.push(server);
            assert(server_views(out@) == seq![fallback_server()]);
            return out;
        }
        let ghost all = server_views(self.ice_servers@);
        let mut i: usize = 0;
        assert(server_views(out@) == all.take(0));
        while i < self.ice_servers.len()
            invariant
                i <= self.ice_servers@.len(),
                all == server_views(self.ice_servers@),
                server_views(out@) == all.take(i as int),
            decreases self.ice_servers@.len() - i,
        {
            let ghost before = out@;
            let server = self.ice_servers[i].copied();
            out.push(server);
            assert(server_views(out@) == server_views(before).push(server@));
            assert(all[i as int] == server@);
            i += 1;
        }
        assert(all.take(i as int) == all);
        out
    }
}

/// How long the user may take to accept or decline a peer, in milliseconds.
pub const CONFIRM_TIMEOUT_MS: u64 = 120000;

/// What became of the question put to the user.
pub enum Prompt {
    /// The user accepted the peer, or declined it.
    Answered(bool),
    /// Nobody can answer it any more.
    Withdrawn,
    /// The time for an answer is over.
    TimedOut,
}

/// Whether the peer may connect: only where the user says so in time.
pub fn accepts(prompt: Prompt) -> (r: bool)
    ensures
        r == (prompt == Prompt::Answered(true)),
{
    match prompt {
        Prompt::Answered(accepted) => accepted,
        Prompt::Withdrawn => false,
        Prompt::TimedOut => false,
    }
}

/// A step of the set-up.
pub enum Step {
    /// Prepare the media engine.
    RegisterCodecs,
    /// Open the peer connection with these servers.
    OpenPeer(Vec<IceServer>),
    /// Prepare the HTTP client.
    BuildClient,
    /// Ask at this address until the offer is there.
    FetchOffer(String),
    /// Let the user accept or decline the peer that made this offer.
    Confirm(String),
    /// Hand this offer to the peer connection.
    SetRemote(Description),
    /// Make the answer.
    CreateAnswer,
    /// Hand the answer to the peer connection, and let it gather its candidates.
    SetLocal,
    /// Read the answer with the candidates.
    ReadLocal,
    /// Post to this address this answer.
    PostAnswer(String, String),
    /// Wait until the session ends.
    AwaitEnd,
    /// Close the peer connection of a session that ended so.
    Close(SessionEnd),
    /// Nothing is left to do: the session ended so.
    Finished(SessionEnd),
}

/// What came of a step.
pub enum Event {
    /// It is done.
    Done,
    /// It could not be done; why.
    Failed(String),
    /// The offer, and what the peer says of itself.
    Offer(String, Option<PeerMeta>),
    /// Whether the user accepts the peer.
    Decided(bool),
    /// The answer with the candidates, where there is one.
    Local(Option<String>),
    /// How the session ended, where that is known.
    Ended(Option<SessionEnd>),
}

/// Whether the event is one that the step can have. A session that waits for its end
/// cannot be declined any more.
pub open spec fn fits(step: Step, event: Event) -> bool {
    match step {
        Step::FetchOffer(_) => event is Offer || event is Failed,
        Step::Confirm(_) => event is Decided,
        Step::ReadLocal => event is Local,
        Step::AwaitEnd => event matches Event::Ended(end) && end != Some(SessionEnd::Rejected),
        Step::Close(_) => event is Done,
        Step::Finished(_) => false,
        _ => event is Done || event is Failed,
    }
}

/// Whether the step is the end of a session that broke off with this error.
pub open spec fn broke_off(step: Step, stage: Seq<char>, error: Seq<char>) -> bool {
    step matches Step::Finished(SessionEnd::Dropped(Some(e))) && e@ == stage + error
}

/// Whether `next` is the step that follows when the offer of an accepted peer was read:
/// an offer that cannot be read ends the session.
pub open spec fn takes_offer(read: Result<Description, Seq<char>>, next: Step) -> bool {
    match read {
        Ok(offer) => next == Step::SetRemote(offer),
        Err(e) => broke_off(next, "bad offer: "@, e),
    }
}

/// Whether `next` is the step that follows when `event` came of `step`; `confirmed`
/// says whether the user accepted a peer of this session before.
pub open spec fn follows(
    plan: SessionPlan,
    step: Step,
    event: Event,
    confirmed: bool,
    next: Step,
) -> bool {
    match (step, event) {
        (Step::RegisterCodecs, Event::Failed(e)) => broke_off(next, "media engine: "@, e@),
        (Step::RegisterCodecs, _) => next matches Step::OpenPeer(servers) && server_views(servers@)
            == plan.servers(),
        (Step::OpenPeer(_), Event::Failed(e)) => broke_off(next, "peer connection: "@, e@),
        (Step::OpenPeer(_), _) => next == Step::BuildClient,
        (Step::BuildClient, Event::Failed(e)) => broke_off(next, "http client: "@, e@),
        (Step::BuildClient, _) => next matches Step::FetchOffer(url) && url@ == offer_address(
            plan.base(),
            plan.session_id@,
        ),
        (Step::FetchOffer(_), Event::Failed(e)) => broke_off(next, "fetch offer: "@, e@),
        (Step::FetchOffer(_), Event::Offer(sdp, _)) => if confirmed {
            takes_offer(offer_read(sdp@), next)
        } else {
            next == Step::Confirm(sdp)
        },
        (Step::Confirm(sdp), Event::Decided(accepted)) => if accepted {
            takes_offer(offer_read(sdp@), next)
        } else {
            next == Step::Finished(SessionEnd::Rejected)
        },
        (Step::SetRemote(_), Event::Failed(e)) => broke_off(next, "set remote: "@, e@),
        (Step::SetRemote(_), _) => next == Step::CreateAnswer,
        (Step::CreateAnswer, Event::Failed(e)) => broke_off(next, "create answer: "@, e@),
        (Step::CreateAnswer, _) => next == Step::SetLocal,
        (Step::SetLocal, Event::Failed(e)) => broke_off(next, "set local: "@, e@),
        (Step::SetLocal, _) => next == Step::ReadLocal,
        (Step::ReadLocal, Event::Local(Some(sdp))) => next matches Step::PostAnswer(url, answer)
            && url@ == answer_address(plan.base(), plan.session_id@) && answer == sdp,
        (Step::ReadLocal, _) => broke_off(next, "no local description"@, Seq::empty()),
        (Step::PostAnswer(..), Event::Failed(e)) => broke_off(next, "post answer: "@, e@),
        (Step::PostAnswer(..), _) => next == Step::AwaitEnd,
        (Step::AwaitEnd, Event::Ended(Some(end))) => next == Step::Close(end),
        (Step::AwaitEnd, _) => next == Step::Close(SessionEnd::Dropped(None)),
        (Step::Close(end), _) => next == Step::Finished(end),
        _ => false,
    }
}

/// The status after `event` came of `step`: a new peer is put before the user, and
/// what the user decides is kept for the rest of the session.
pub open spec fn noted(step: Step, event: Event, now_ms: u64, before: Status, after: Status) -> bool {
    match (step, event) {
        (Step::FetchOffer(_), Event::Offer(sdp, meta)) => if before.confirmed {
            after == before
        } else {
            after.pending_peer matches Some(peer) && describes(peer, sdp@, meta, now_ms) && after
                == (Status {
                awaiting_confirmation: true,
                pending_peer: after.pending_peer,
                ..before
            })
        },
        (Step::Confirm(_), Event::Decided(accepted)) => after == (Status {
            awaiting_confirmation: false,
            pending_peer: None,
            confirmed: before.confirmed || accepted,
            ..before
        }),
        _ => after == before,
    }
}

fn dropped(stage: &str, error: &str) -> (r: Step)
    ensures
        broke_off(r, stage@, error@),
{
    Step::Finished(SessionEnd::Dropped(Some(concat(stage, error))))
}

/// The step that follows when the offer of an accepted peer was read.
pub fn take_offer(read: Result<Description, String>) -> (r: Step)
    ensures
        match read {
            Ok(offer) => r == Step::SetRemote(offer),
            Err(e) => broke_off(r, "bad offer: "@, e@),
        },
{
    match read {
        Ok(offer) => Step::SetRemote(offer),
        Err(e) => dropped("bad offer: ", e.as_str()),
    }
}

/// The step that follows when `event` came of `step`. The status learns of a peer
/// that asks to connect, and of what the user decides.
pub fn session_step(
    plan: &SessionPlan,
    step: Step,
    event: Event,
    now_ms: u64,
    status: &mut Status,
) -> (r: Step)
    requires
        fits(step, event),
    ensures
        follows(*plan, step, event, old(status).confirmed, r),
        noted(step, event, now_ms, *old(status), *final(status)),
{
    match step {
        Step::RegisterCodecs => match event {
            Event::Failed(e) => dropped("media engine: ", e.as_str()),
            _ => Step::OpenPeer(plan.servers_to_use()),
        },
        Step::OpenPeer(_) => match event {
            Event::Failed(e) => dropped("peer connection: ", e.as_str()),
            _ => Step::BuildClient,
        },
        Step::BuildClient => match event {
            Event::Failed(e) => dropped("http client: ", e.as_str()),
            _ => {
                let base = trim_end_of(plan.signaling_url.as_str(), '/');
                Step::FetchOffer(offer_url(base.as_str(), plan.session_id.as_str()))
            },
        },
        Step::FetchOffer(_) => match event {
            Event::Offer(sdp, meta) => {
                if status.confirmed {
                    take_offer(read_offer(sdp))
                } else {
                    let peer = build_peer_info(sdp.as_str(), meta, now_ms);
                    status.ask(peer);
                    Step::Confirm(sdp)
                }
            },
            Event::Failed(e) => dropped("fetch offer: ", e.as_str()),
            _ => Step::Finished(SessionEnd::Dropped(None)),
        },
        Step::Confirm(sdp) => {
            status.clear_pending();
            match event {
                Event::Decided(true) => {
                    status.confirmed = true;
                    take_offer(read_offer(sdp))
                },
                _ => Step::Finished(SessionEnd::Rejected),
            }
        },
        Step::SetRemote(_) => match event {
            Event::Failed(e) => dropped("set remote: ", e.as_str()),
            _ => Step::CreateAnswer,
        },
        Step::CreateAnswer => match event {
            Event::Failed(e) => dropped("create answer: ", e.as_str()),
            _ => Step::SetLocal,
        },
        Step::SetLocal => match event {
            Event::Failed(e) => dropped("set local: ", e.as_str()),
            _ => Step::ReadLocal,
        },
        Step::ReadLocal => match event {
            Event::Local(Some(sdp)) => {
                let base = trim_end_of(plan.signaling_url.as_str(), '/');
                Step::PostAnswer(answer_url(base.as_str(), plan.session_id.as_str()), sdp)
            },
            _ => {
                assert(""@ == Seq::<char>::empty()) by {
                    reveal_strlit("");
                }
                dropped("no local description", "")
            },
        },
        Step::PostAnswer(_, _) => match event {
            Event::Failed(e) => dropped("post answer: ", e.as_str()),
            _ => Step::AwaitEnd,
        },
        Step::AwaitEnd => match event {
            Event::Ended(Some(end)) => Step::Close(end),
            _ => Step::Close(SessionEnd::Dropped(None)),
        },
        Step::Close(end) => Step::Finished(end),
        Step::Finished(end) => Step::Finished(end),
    }
}

/// One step of a session that was carried out.
pub struct Turn {
    /// The step.
    pub step: Step,
    /// What came of it.
    pub event: Event,
    /// Whether the user had accepted a peer of this session before.
    pub confirmed: bool,
    /// The step that followed.
    pub next: Step,
}

/// Whether the turns are the course of a session from its start.
pub open spec fn course(plan: SessionPlan, turns: Seq<Turn>) -> bool {
    &&& turns.len() > 0 ==> turns[0].step == Step::RegisterCodecs
    &&& forall|i: int|
        #![trigger turns[i]]
        0 <= i < turns.len() ==> fits(turns[i].step, turns[i].event) && follows(
            plan,
            turns[i].step,
            turns[i].event,
            turns[i].confirmed,
            turns[i].next,
        )
    &&& forall|i: int, j: int|
        #![trigger turns[i], turns[j]]
        0 <= i && j == i + 1 && j < turns.len() ==> turns[j].step == turns[i].next
}

/// Whether the turn is one in which the consent of the user was there: it was given
/// now, or it was given before and a new offer came in.
pub open spec fn consented(turn: Turn) -> bool {
    ||| turn.step is Confirm && turn.event == Event::Decided(true)
    ||| turn.step is FetchOffer && turn.confirmed
}

/// Whether the step answers the peer, or comes after that.
pub open spec fn answers_peer(step: Step) -> bool {
    match step {
        Step::SetRemote(_) => true,
        Step::CreateAnswer => true,
        Step::SetLocal => true,
        Step::ReadLocal => true,
        Step::PostAnswer(..) => true,
        Step::AwaitEnd => true,
        Step::Close(_) => true,
        _ => false,
    }
}

/// No peer is answered without the consent of the user: before the offer is so much
/// as handed to the peer connection, the user accepted a peer of this session.
pub proof fn law_no_answer_without_consent(plan: SessionPlan, turns: Seq<Turn>, k: int) -> (j: int)
    requires
        course(plan, turns),
        0 <= k < turns.len(),
        answers_peer(turns[k].step),
    ensures
        0 <= j < k,
        consented(turns[j]),
    decreases k,
{
    assert(k > 0);
    assert(turns[k].step == turns[k - 1].next);
    if answers_peer(turns[k - 1].step) {
        law_no_answer_without_consent(plan, turns, k - 1)
    } else {
        k - 1
    }
}

/// An offer that cannot be read ends the session with its fault, and the peer is never
/// answered.
pub proof fn law_unreadable_offer_ends_the_session(
    plan: SessionPlan,
    turns: Seq<Turn>,
    k: int,
    sdp: String,
)
    requires
        course(plan, turns),
        0 <= k < turns.len(),
        turns[k].step == Step::Confirm(sdp) && turns[k].event == Event::Decided(true) || (
        turns[k].step is FetchOffer && turns[k].confirmed && (turns[k].event matches Event::Offer(
            offer,
            _,
        ) && offer == sdp)),
        offer_read(sdp@) is Err,
    ensures
        broke_off(turns[k].next, "bad offer: "@, offer_read(sdp@)->Err_0),
        k == turns.len() - 1,
{
    if k + 1 < turns.len() {
        assert(turns[k + 1].step == turns[k].next);
        assert(fits(turns[k + 1].step, turns[k + 1].event));
    }
}

/// When the user declines a peer, the session ends as declined, and nothing follows.
pub proof fn law_declined_session_is_over(plan: SessionPlan, turns: Seq<Turn>, k: int)
    requires
        course(plan, turns),
        0 <= k < turns.len(),
        turns[k].step is Confirm,
        turns[k].event == Event::Decided(false),
    ensures
        turns[k].next == Step::Finished(SessionEnd::Rejected),
        k == turns.len() - 1,
{
    if k + 1 < turns.len() {
        assert(turns[k + 1].step == turns[k].next);
        assert(fits(turns[k + 1].step, turns[k + 1].event));
    }
}

/// A peer of a session in which the user accepted one before is not put before the user
/// again: the offer is taken at once, and the status stays as it is.
pub proof fn law_confirmed_session_does_not_ask_again(
    plan: SessionPlan,
    url: String,
    sdp: String,
    meta: Option<PeerMeta>,
    next: Step,
    now_ms: u64,
    before: Status,
    after: Status,
)
    requires
        before.confirmed,
        follows(plan, Step::FetchOffer(url), Event::Offer(sdp, meta), before.confirmed, next),
        noted(Step::FetchOffer(url), Event::Offer(sdp, meta), now_ms, before, after),
    ensures
        takes_offer(offer_read(sdp@), next),
        !(next is Confirm),
        after == before,
{
}

/// A step never takes the consent of the user back.
pub proof fn law_step_keeps_consent(
    step: Step,
    event: Event,
    now_ms: u64,
    before: Status,
    after: Status,
)
    requires
        noted(step, event, now_ms, before, after),
        before.confirmed,
    ensures
        after.confirmed,
{
}

/// Whether the consent of the user, once it is there, stays from turn to turn.
pub open spec fn consent_stays(turns: Seq<Turn>) -> bool {
    forall|i: int, j: int|
        #![trigger turns[i], turns[j]]
        0 <= i && j == i + 1 && j < turns.len() && turns[i].confirmed ==> turns[j].confirmed
}

/// A session in which the user accepted a peer before neither asks again nor ends as
/// declined.
pub proof fn law_confirmed_session_is_never_declined(plan: SessionPlan, turns: Seq<Turn>, k: int)
    requires
        course(plan, turns),
        consent_stays(turns),
        0 <= k < turns.len(),
        turns[0].confirmed,
    ensures
        turns[k].confirmed,
        !(turns[k].step is Confirm),
        turns[k].step != Step::Close(SessionEnd::Rejected),
        !(turns[k].next is Confirm),
        turns[k].next != Step::Finished(SessionEnd::Rejected),
    decreases k,
{
    assert(fits(turns[k].step, turns[k].event));
    if k > 0 {
        law_confirmed_session_is_never_declined(plan, turns, k - 1);
        assert(fits(turns[k - 1].step, turns[k - 1].event));
        assert(turns[k].step == turns[k - 1].next);
    }
}

/// How far a step is on the way to the end.
pub open spec fn progress(step: Step) -> nat {
    match step {
        Step::RegisterCodecs => 0,
        Step::OpenPeer(_) => 1,
        Step::BuildClient => 2,
        Step::FetchOffer(_) => 3,
        Step::Confirm(_) => 4,
        Step::SetRemote(_) => 5,
        Step::CreateAnswer => 6,
        Step::SetLocal => 7,
        Step::ReadLocal => 8,
        Step::PostAnswer(..) => 9,
        Step::AwaitEnd => 10,
        Step::Close(_) => 11,
        Step::Finished(_) => 12,
    }
}

/// Every session comes to its end: each step leads on, so that there are at most as
/// many turns as there are steps before the end.
pub proof fn law_session_comes_to_its_end(plan: SessionPlan, turns: Seq<Turn>, k: int)
    requires
        course(plan, turns),
        0 <= k < turns.len(),
    ensures
        k <= progress(turns[k].step) < progress(turns[k].next) <= 12,
        turns.len() <= 12,
    decreases k,
{
    assert(fits(turns[k].step, turns[k].event));
    if k > 0 {
        law_session_comes_to_its_end(plan, turns, k - 1);
        assert(turns[k].step == turns[k - 1].next);
    } else {
        lemma_turns_are_bounded(plan, turns, turns.len() - 1);
    }
}

proof fn lemma_turns_are_bounded(plan: SessionPlan, turns: Seq<Turn>, k: int)
    requires
        course(plan, turns),
        0 <= k < turns.len(),
    ensures
        k <= progress(turns[k].step) < 12,
    decreases k,
{
    assert(fits(turns[k].step, turns[k].event));
    if k > 0 {
        lemma_turns_are_bounded(plan, turns, k - 1);
        assert(turns[k].step == turns[k - 1].next);
        assert(fits(turns[k - 1].step, turns[k - 1].event));
    }
}

/// Where servers came with the session, the peer connection is opened with exactly as
/// many, and each has the addresses, the user and the credential of the one that came in
/// its place.
pub proof fn law_servers_that_came_are_used(plan: SessionPlan, confirmed: bool, next: Step, k: int)
    requires
        follows(plan, Step::RegisterCodecs, Event::Done, confirmed, next),
        0 <= k < plan.ice_servers@.len(),
    ensures
        next matches Step::OpenPeer(servers) && servers@.len() == plan.ice_servers@.len()
            && servers@[k].username@ == plan.ice_servers@[k].username@ && servers@[k].credential@
            == plan.ice_servers@[k].credential@ && servers@[k].urls@.len()
            == plan.ice_servers@[k].urls@.len() && (forall|i: int|
            0 <= i < servers@[k].urls@.len() ==> (#[trigger] servers@[k].urls@[i])@
                == plan.ice_servers@[k].urls@[i]@),
{
    let servers = next->OpenPeer_0@;
    let came = plan.ice_servers@;
    assert(server_views(servers).len() == server_views(came).len());
    assert(server_views(servers)[k] == server_views(came)[k]);
    assert(servers[k]@ == came[k]@);
    assert(views(servers[k].urls@).len() == views(came[k].urls@).len());
    assert forall|i: int| 0 <= i < servers[k].urls@.len() implies (#[trigger] servers[k].urls@[i])@
        == came[k].urls@[i]@ by {
        assert(views(servers[k].urls@)[i] == views(came[k].urls@)[i]);
    }
}

/// Where none came, the peer connection is opened with one public server, without a user
/// or a credential.
pub proof fn law_fallback_server_is_used(plan: SessionPlan, confirmed: bool, next: Step)
    requires
        follows(plan, Step::RegisterCodecs, Event::Done, confirmed, next),
        plan.ice_servers@.len() == 0,
    ensures
        next matches Step::OpenPeer(servers) && servers@.len() == 1 && servers@[0].urls@.len() == 1
            && servers@[0].urls@[0]@ == "stun:stun.l.google.com:19302"@
            && servers@[0].username@.len() == 0 && servers@[0].credential@.len() == 0,
{
    let servers = next->OpenPeer_0@;
    assert(server_views(servers).len() == 1);
    assert(server_views(servers)[0] == servers[0]@);
    assert(views(servers[0].urls@).len() == 1);
    assert(views(servers[0].urls@)[0] == servers[0].urls@[0]@);
}

/// The offer is asked for, and the answer posted, below the signaling endpoint without
/// the slashes at its end, under the code of the session.
pub proof fn law_signaling_is_below_the_endpoint(
    plan: SessionPlan,
    answer: String,
    confirmed: bool,
    asks: Step,
    posts: Step,
) -> (n: int)
    requires
        follows(plan, Step::BuildClient, Event::Done, confirmed, asks),
        follows(plan, Step::ReadLocal, Event::Local(Some(answer)), confirmed, posts),
    ensures
        0 <= n <= plan.signaling_url@.len(),
        forall|i: int|
            n <= i < plan.signaling_url@.len() ==> #[trigger] plan.signaling_url@[i] == '/',
        n > 0 ==> plan.signaling_url@[n - 1] != '/',
        asks matches Step::FetchOffer(url) && url@ == plan.signaling_url@.take(n) + "/v1/signal/"@
            + plan.session_id@ + "/offer"@,
        posts matches Step::PostAnswer(url, sent) && sent == answer && url@
            == plan.signaling_url@.take(n) + "/v1/signal/"@ + plan.session_id@ + "/answer"@,
{
    law_trimmed_end_of_is_the_start(plan.signaling_url@, '/')
}

/// A step that fails ends the session as dropped, and the reason names the stage and the
/// fault.
pub proof fn law_failure_names_its_stage(
    plan: SessionPlan,
    step: Step,
    fault: String,
    confirmed: bool,
    next: Step,
)
    requires
        fits(step, Event::Failed(fault)),
        follows(plan, step, Event::Failed(fault), confirmed, next),
    ensures
        next matches Step::Finished(SessionEnd::Dropped(Some(reason))) && reason@ == (match step {
            Step::RegisterCodecs => "media engine: "@,
            Step::OpenPeer(_) => "peer connection: "@,
            Step::BuildClient => "http client: "@,
            Step::FetchOffer(_) => "fetch offer: "@,
            Step::SetRemote(_) => "set remote: "@,
            Step::CreateAnswer => "create answer: "@,
            Step::SetLocal => "set local: "@,
            _ => "post answer: "@,
        }) + fault@,
{
}

/// A step that is done leads on to the one that comes after it.
pub proof fn law_done_step_leads_on(plan: SessionPlan, step: Step, confirmed: bool, next: Step)
    requires
        fits(step, Event::Done),
        follows(plan, step, Event::Done, confirmed, next),
    ensures
        step is RegisterCodecs ==> next is OpenPeer,
        step is OpenPeer ==> next == Step::BuildClient,
        step is BuildClient ==> next is FetchOffer,
        step is SetRemote ==> next == Step::CreateAnswer,
        step is CreateAnswer ==> next == Step::SetLocal,
        step is SetLocal ==> next == Step::ReadLocal,
        step is PostAnswer ==> next == Step::AwaitEnd,
        step matches Step::Close(end) ==> next == Step::Finished(end),
{
}

/// The offer of a peer that the user has not accepted is put before the user; once it is
/// accepted, what it reads as is handed on, and nothing else.
pub proof fn law_accepted_offer_is_handed_on(
    plan: SessionPlan,
    url: String,
    sdp: String,
    meta: Option<PeerMeta>,
    asked: Step,
    accepted: Step,
    silent: Step,
)
    requires
        follows(plan, Step::FetchOffer(url), Event::Offer(sdp, meta), false, asked),
        follows(plan, Step::Confirm(sdp), Event::Decided(true), false, accepted),
        follows(plan, Step::FetchOffer(url), Event::Offer(sdp, meta), true, silent),
    ensures
        asked == Step::Confirm(sdp),
        offer_read(sdp@) matches Ok(d) ==> accepted == Step::SetRemote(d) && silent
            == Step::SetRemote(d),
        offer_read(sdp@) matches Err(fault) ==> (accepted matches Step::Finished(
            SessionEnd::Dropped(Some(reason)),
        ) && reason@ == "bad offer: "@ + fault) && (silent matches Step::Finished(
            SessionEnd::Dropped(Some(reason)),
        ) && reason@ == "bad offer: "@ + fault),
{
}

/// A session that stands ends as its peer connection reports it, and as dropped where
/// nothing is reported; without an answer to post it is dropped at once.
pub proof fn law_session_ends_as_reported(
    plan: SessionPlan,
    end: Option<SessionEnd>,
    confirmed: bool,
    closing: Step,
    silent: Step,
)
    requires
        follows(plan, Step::AwaitEnd, Event::Ended(end), confirmed, closing),
        follows(plan, Step::ReadLocal, Event::Local(None), confirmed, silent),
    ensures
        closing == Step::Close(
            match end {
                Some(reported) => reported,
                None => SessionEnd::Dropped(None),
            },
        ),
        silent matches Step::Finished(SessionEnd::Dropped(Some(reason))) && reason@
            == "no local description"@,
{
    assert("no local description"@ + Seq::<char>::empty() =~= "no local description"@);
}

/// A step changes of the status only the question to the user and what the user decides:
/// the question is put when the offer of a peer that is not accepted comes in, and taken
/// back when it is decided.
pub proof fn law_step_notes_only_the_question(
    step: Step,
    event: Event,
    now_ms: u64,
    before: Status,
    after: Status,
)
    requires
        noted(step, event, now_ms, before, after),
    ensures
        after.pairing_code == before.pairing_code,
        after.paired == before.paired,
        after.session_id == before.session_id,
        after.connected == before.connected,
        after.ended == before.ended,
        after.last_error == before.last_error,
        after.frames_in == before.frames_in,
        after.messages_out == before.messages_out,
        after.last_frame_ms == before.last_frame_ms,
        step is FetchOffer && !before.confirmed ==> (event matches Event::Offer(sdp, meta) ==> (
        after.pending_peer matches Some(peer) && describes(peer, sdp@, meta, now_ms))
            && after.awaiting_confirmation && !after.confirmed),
        step is Confirm ==> (event matches Event::Decided(accepted) ==> !after.awaiting_confirmation
            && after.pending_peer is None && after.confirmed == (before.confirmed || accepted)),
        !(step is Confirm && event is Decided) && !(step is FetchOffer && event is Offer
            && !before.confirmed) ==> after == before,
{
}

/// An answer may carry an offer where it reports success with a body.
pub proof fn law_offer_comes_with_success(status: u16)
    ensures
        carries_offer(status) <==> status / 100 == 2 && status != 204,
{
}

/// The offer is taken as it comes, with what the peer says of itself, as soon as it comes
/// with success and says anything; else it is asked for again, up to the last time.
pub proof fn law_offer_is_taken_when_it_comes(
    attempt: u32,
    status: u16,
    sdp: String,
    peer: Option<PeerMeta>,
    found: Poll,
    missed: Poll,
)
    requires
        attempt < 180,
        polled(attempt, status, Some(OfferResp { sdp, peer }), found),
        polled(attempt, status, None, missed),
    ensures
        status / 100 == 2 && status != 204 && sdp@.len() > 0 ==> found == Poll::Found(sdp, peer),
        !(status / 100 == 2 && status != 204 && sdp@.len() > 0) ==> !(found is Found),
        !(missed is Found),
        attempt < 179 ==> missed == Poll::Again(1000),
        attempt == 179 ==> (missed matches Poll::GiveUp(1000, reason) && reason@
            == "timed out waiting for offer"@),
{
}

} // verus!
