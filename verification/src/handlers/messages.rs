//! The exchange of session descriptions and ICE candidates between the two clients of a session.

use vstd::prelude::*;
use crate::handlers;
use crate::handlers::websocket::{
    send_answer_packet, send_ice_candidate_packet, send_offer_packet,
};
use crate::handlers::{ErrorView, HandlerError, Step, StepView};
use crate::hub;
use crate::hub::{ConnectionView, MatchmakingHub};
use crate::models::ConnectionId;
use crate::pb::{Answer, IceCandidate, Start, StartView, Which, WhichView};
use crate::text;
use crate::text::same_text;

verus! {

/// The connections after two of a session have been paired with each other.
pub open spec fn linked(
    hub: Seq<ConnectionView>,
    session: Seq<char>,
    a: ConnectionId,
    b: ConnectionId,
) -> Seq<ConnectionView> {
    hub::peer_recorded(hub::peer_recorded(hub, session, a, b), session, b, a)
}

/// Whether a start comes from the client whose offer is waiting: both state the same identity.
pub open spec fn is_reconnection(start: StartView, waiting: ConnectionView) -> bool {
    start.connection_id is Some && start.connection_id == waiting.attachment.connection_id
}

/// What a start from the connection `id` does. Without an offerer in the session the
/// connection becomes the offerer. The offerer itself, and a client that states the identity of
/// the offerer, replace the offer that is waiting. Anybody else is the answerer: it is paired
/// with the offerer and is handed the waiting offer.
pub open spec fn started(
    hub: Seq<ConnectionView>,
    session: Seq<char>,
    id: ConnectionId,
    start: StartView,
) -> (Seq<ConnectionView>, StepView) {
    match hub::offerer(hub, session) {
        None => (
            hub::offer_stored(hub, session, id, start.offer_sdp, start.connection_id),
            handlers::silent_step(Ok(())),
        ),
        Some(waiting) => if waiting.id == id || is_reconnection(start, waiting) {
            (
                hub::offer_stored(
                    hub,
                    session,
                    waiting.id,
                    start.offer_sdp,
                    start.connection_id,
                ),
                handlers::silent_step(Ok(())),
            )
        } else {
            (
                linked(hub, session, id, waiting.id),
                handlers::required_step(
                    id,
                    WhichView::Offer(waiting.attachment.offer_sdp->0),
                    Ok(()),
                ),
            )
        },
    }
}

/// What an answer from the connection `id` does: it is handed to the offerer of the session, and
/// the two are paired.
pub open spec fn answered(
    hub: Seq<ConnectionView>,
    session: Seq<char>,
    id: ConnectionId,
    sdp: Seq<char>,
) -> (Seq<ConnectionView>, StepView) {
    match hub::offerer(hub, session) {
        None => (
            hub,
            handlers::silent_step(Err(ErrorView::UnexpectedAnswer)),
        ),
        Some(waiting) => (
            linked(hub, session, id, waiting.id),
            handlers::best_effort_step(waiting.id, WhichView::Answer(sdp)),
        ),
    }
}

/// The connection that the connection `id` of a session has been paired with, while it is open.
pub open spec fn paired(
    hub: Seq<ConnectionView>,
    session: Seq<char>,
    id: ConnectionId,
) -> Option<ConnectionView> {
    match hub::connection_by_id(hub, session, id) {
        Some(own) => match own.attachment.peer_id {
            Some(peer) => hub::connection_by_id(hub, session, peer),
            None => None,
        },
        None => None,
    }
}

/// Where ICE candidates from the connection `id` go: to the connection that it has been paired
/// with, or else to the only other connection of the session.
pub open spec fn candidate_target(
    hub: Seq<ConnectionView>,
    session: Seq<char>,
    id: ConnectionId,
) -> Option<ConnectionView> {
    match paired(hub, session, id) {
        Some(peer) => Some(peer),
        None => hub::other_connection(hub, session, id),
    }
}

/// What an ICE candidate from the connection `id` does: it is relayed, if there is anybody to
/// relay it to.
pub open spec fn relayed(
    hub: Seq<ConnectionView>,
    session: Seq<char>,
    id: ConnectionId,
    candidate: Seq<char>,
) -> StepView {
    match candidate_target(hub, session, id) {
        Some(target) => handlers::best_effort_step(
            target.id,
            WhichView::IceCandidate(candidate),
        ),
        None => handlers::silent_step(Ok(())),
    }
}

fn same_identity(a: &Option<String>, b: &Option<String>) -> (r: bool)
    ensures
        r == (text::text_view(*a) is Some && text::text_view(*a)
            == text::text_view(*b)),
{
    match (a, b) {
        (Some(x), Some(y)) => same_text(x.as_str(), y.as_str()),
        _ => false,
    }
}

/// A client asks to be matched.
pub fn handle_start(
    connection: ConnectionId,
    hub: &mut MatchmakingHub,
    session_id: &str,
    start: &Start,
) -> (r: Step)
    ensures
        (final(hub)@, r@) == started(old(hub)@, session_id@, connection, start@),
        r.outcome.result is Ok,
        r.outgoing matches Some(outgoing) ==> {
            &&& outgoing.to == connection
            &&& outgoing.packet.which matches Some(Which::Offer(sent))
            &&& exists|w: int|
                0 <= w < old(hub)@.len() && (#[trigger] old(hub)@[w]).attachment.session_id
                    == session_id@ && old(hub)@[w].attachment.offer_sdp == Some(sent.sdp@)
        },
{
    proof {
        hub::lemma_offerer_position(hub@, session_id@);
    }
    let (offerer_id, reconnecting, offer_sdp) = match hub.find_offerer(session_id) {
        None => {
            // No one waiting: become the offerer.
            hub.store_offer(session_id, connection, &start.offer_sdp, &start.connection_id);
            return Step::silent(Ok(()));
        },
        Some(c) => (
            c.id,
            same_identity(&start.connection_id, &c.attachment.connection_id),
            match &c.attachment.offer_sdp {
                Some(sdp) => sdp.clone(),
                None => String::new(),
            },
        ),
    };

    // A duplicate start, or the offerer reconnecting: the new offer replaces the waiting one.
    if offerer_id == connection || reconnecting {
        hub.store_offer(session_id, offerer_id, &start.offer_sdp, &start.connection_id);
        return Step::silent(Ok(()));
    }

    // Different peer: this connection is the answerer. Pair the two so that trickled ICE
    // candidates can be routed to the correct counterpart, then hand it the offer to answer.
    link_peers(connection, offerer_id, hub, session_id);
    Step::required(send_offer_packet(connection, offer_sdp.as_str()), Ok(()))
}

/// Record a mutual pairing between two connections. Trickled ICE candidates
/// coming from one are relayed to the other for the rest of the session.
pub fn link_peers(
    a: ConnectionId,
    b: ConnectionId,
    hub: &mut MatchmakingHub,
    session_id: &str,
)
    ensures
        final(hub)@ == linked(old(hub)@, session_id@, a, b),
{
    hub.record_peer(session_id, a, b);
    hub.record_peer(session_id, b, a);
}

/// A client answers the offer of its session.
pub fn handle_answer(
    connection: ConnectionId,
    hub: &mut MatchmakingHub,
    session_id: &str,
    answer: &Answer,
) -> (r: Step)
    ensures
        (final(hub)@, r@) == answered(old(hub)@, session_id@, connection, answer.sdp@),
        r.outgoing matches Some(outgoing) ==> {
            &&& outgoing.packet.which matches Some(Which::Answer(sent))
            &&& sent.sdp@ == answer.sdp@
        },
{
    let offerer_id = match hub.find_offerer(session_id) {
        None => {
            return Step::silent(Err(HandlerError::UnexpectedAnswer));
        },
        Some(c) => c.id,
    };

    // Make sure the pairing is recorded (normally set when the answerer's start arrived) so
    // both directions of ICE trickle route correctly.
    link_peers(connection, offerer_id, hub, session_id);

    // With trickle ICE the exchange isn't finished here: both peers keep the socket open and
    // trickle candidates until their connection comes up, then each closes its own socket.
    Step::best_effort(send_answer_packet(offerer_id, answer.sdp.as_str()))
}

/// Relay a trickled ICE candidate to the peer this connection is paired with.
/// Falls back to the only other connection in the session if the pairing hasn't
/// been recorded yet (candidates can, in principle, arrive before the answer is
/// processed).
pub fn handle_ice_candidate(
    connection: ConnectionId,
    hub: &MatchmakingHub,
    session_id: &str,
    ice_candidate: &IceCandidate,
) -> (r: Step)
    ensures
        r@ == relayed(hub@, session_id@, connection, ice_candidate.candidate@),
        r.outcome.result is Ok && !r.outcome.required,
        r.outgoing matches Some(outgoing) ==> {
            &&& outgoing.packet.which matches Some(Which::IceCandidate(sent))
            &&& sent.candidate@ == ice_candidate.candidate@
        },
{
    let peer_id: Option<ConnectionId> = match hub.find_connection_by_id(session_id, connection) {
        Some(own) => own.attachment.peer_id,
        None => None,
    };

    let target = match peer_id {
        Some(peer) => hub.find_connection_by_id(session_id, peer),
        None => None,
    };

    let target = match target {
        Some(t) => Some(t),
        None => hub.find_other_connection(session_id, connection),
    };

    match target {
        Some(t) => Step::best_effort(
            send_ice_candidate_packet(t.id, ice_candidate.candidate.as_str()),
        ),
        None => Step::silent(Ok(())),
    }
}

} // verus!
