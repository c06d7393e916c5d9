//! What each thing that a client sends comes to, in terms of the connections of its session.

use vstd::prelude::*;
use crate::handlers::messages;
use crate::handlers::websocket;
use crate::handlers::websocket::{ActionView, EventView, WsMessageView};
use crate::handlers::{ErrorView, OutcomeView, OutgoingView};
use crate::hub;
use crate::hub::ConnectionView;
use crate::models::{AttachmentView, ConnectionId};
use crate::pb::{AbortReason, IceServerView, StartView, WhichView};

verus! {

/// The connection at `w` is the offerer of its session.
proof fn lemma_offerer_at(hub: Seq<ConnectionView>, session: Seq<char>, w: int)
    requires
        0 <= w < hub.len(),
        hub[w].attachment.session_id == session,
        hub[w].attachment.offer_sdp is Some,
        forall|j: int|
            0 <= j < w ==> (#[trigger] hub[j]).attachment.session_id != session
                || hub[j].attachment.offer_sdp is None,
    ensures
        hub::offerer(hub, session) == Some(hub[w]),
{
    hub::lemma_filter_first(hub, w, |c: ConnectionView| hub::is_offerer(c, session));
}

/// Nobody in the session is its offerer.
proof fn lemma_no_offerer(hub: Seq<ConnectionView>, session: Seq<char>)
    requires
        forall|j: int|
            0 <= j < hub.len() ==> (#[trigger] hub[j]).attachment.session_id != session
                || hub[j].attachment.offer_sdp is None,
    ensures
        hub::offerer(hub, session) is None,
{
    hub::lemma_filter_nothing(hub, |c: ConnectionView| hub::is_offerer(c, session));
}

/// The connection at `k` is the one that its identity finds.
proof fn lemma_found_at(
    hub: Seq<ConnectionView>,
    session: Seq<char>,
    id: ConnectionId,
    k: int,
)
    requires
        0 <= k < hub.len(),
        hub[k].attachment.session_id == session && hub[k].id == id,
        forall|j: int|
            0 <= j < k ==> (#[trigger] hub[j]).attachment.session_id != session || hub[j].id != id,
    ensures
        hub::connection_by_id(hub, session, id) == Some(hub[k]),
{
    hub::lemma_filter_first(hub, k, |c: ConnectionView| hub::is_member(c, session, id));
}

/// A client that starts while nobody in its session waits becomes the one who waits: its offer
/// and its identity are kept, and nothing is sent.
pub proof fn law_first_to_start_waits(
    hub: Seq<ConnectionView>,
    session: Seq<char>,
    id: ConnectionId,
    start: StartView,
)
    requires
        forall|j: int|
            0 <= j < hub.len() ==> (#[trigger] hub[j]).attachment.session_id != session
                || hub[j].attachment.offer_sdp is None,
    ensures
        ({
            let (after, step) = messages::started(hub, session, id, start);
            &&& step.outgoing is None
            &&& !step.outcome.required
            &&& step.outcome.result == Ok::<(), ErrorView>(())
            &&& after.len() == hub.len()
            &&& forall|i: int|
                0 <= i < hub.len() ==> #[trigger] after[i] == if hub[i].attachment.session_id
                    == session && hub[i].id == id {
                    ConnectionView {
                        id: hub[i].id,
                        attachment: AttachmentView {
                            session_id: hub[i].attachment.session_id,
                            protocol_version: hub[i].attachment.protocol_version,
                            offer_sdp: Some(start.offer_sdp),
                            connection_id: start.connection_id,
                            peer_id: hub[i].attachment.peer_id,
                        },
                    }
                } else {
                    hub[i]
                }
        }),
{
    lemma_no_offerer(hub, session);
}

/// A client that starts while another waits, and does not state the same identity as that one,
/// whole and to the letter, is handed the offer that waits, as it was stored, and the two are
/// paired. Nothing else changes: the offer goes on waiting.
pub proof fn law_another_client_is_handed_the_waiting_offer(
    hub: Seq<ConnectionView>,
    session: Seq<char>,
    id: ConnectionId,
    start: StartView,
    waiting: Seq<char>,
    w: int,
)
    requires
        0 <= w < hub.len(),
        hub[w].attachment.session_id == session,
        hub[w].attachment.offer_sdp == Some(waiting),
        forall|j: int|
            0 <= j < w ==> (#[trigger] hub[j]).attachment.session_id != session
                || hub[j].attachment.offer_sdp is None,
        hub[w].id != id,
        start.connection_id is None || hub[w].attachment.connection_id is None
            || start.connection_id->0 != hub[w].attachment.connection_id->0,
    ensures
        ({
            let (after, step) = messages::started(hub, session, id, start);
            &&& step.outgoing == Some(OutgoingView { to: id, packet: Some(WhichView::Offer(waiting)) })
            &&& step.outcome.required == true
            &&& step.outcome.result == Ok::<(), ErrorView>(())
            &&& after.len() == hub.len()
            &&& forall|i: int|
                0 <= i < hub.len() ==> #[trigger] after[i] == (ConnectionView {
                    id: hub[i].id,
                    attachment: AttachmentView {
                        session_id: hub[i].attachment.session_id,
                        protocol_version: hub[i].attachment.protocol_version,
                        offer_sdp: hub[i].attachment.offer_sdp,
                        connection_id: hub[i].attachment.connection_id,
                        peer_id: if hub[i].attachment.session_id != session {
                            hub[i].attachment.peer_id
                        } else if hub[i].id == hub[w].id {
                            Some(id)
                        } else if hub[i].id == id {
                            Some(hub[w].id)
                        } else {
                            hub[i].attachment.peer_id
                        },
                    },
                })
        }),
{
    lemma_offerer_at(hub, session, w);
}

/// The client that waits, and a client that states the same identity as that one, whole and to
/// the letter, replace the offer that waits. Nothing is sent and nobody is paired.
pub proof fn law_only_the_same_identity_replaces_the_offer(
    hub: Seq<ConnectionView>,
    session: Seq<char>,
    id: ConnectionId,
    start: StartView,
    waiting: Seq<char>,
    w: int,
)
    requires
        0 <= w < hub.len(),
        hub[w].attachment.session_id == session,
        hub[w].attachment.offer_sdp == Some(waiting),
        forall|j: int|
            0 <= j < w ==> (#[trigger] hub[j]).attachment.session_id != session
                || hub[j].attachment.offer_sdp is None,
        hub[w].id == id || (start.connection_id is Some && hub[w].attachment.connection_id is Some
            && start.connection_id->0 == hub[w].attachment.connection_id->0),
    ensures
        ({
            let (after, step) = messages::started(hub, session, id, start);
            &&& step.outgoing is None
            &&& !step.outcome.required
            &&& step.outcome.result == Ok::<(), ErrorView>(())
            &&& after.len() == hub.len()
            &&& forall|i: int|
                0 <= i < hub.len() ==> #[trigger] after[i] == if hub[i].attachment.session_id
                    == session && hub[i].id == hub[w].id {
                    ConnectionView {
                        id: hub[i].id,
                        attachment: AttachmentView {
                            session_id: hub[i].attachment.session_id,
                            protocol_version: hub[i].attachment.protocol_version,
                            offer_sdp: Some(start.offer_sdp),
                            connection_id: start.connection_id,
                            peer_id: hub[i].attachment.peer_id,
                        },
                    }
                } else {
                    hub[i]
                }
        }),
{
    lemma_offerer_at(hub, session, w);
}

/// An answer while nobody in the session waits is an error, and changes nothing.
pub proof fn law_answer_needs_an_offer(
    hub: Seq<ConnectionView>,
    session: Seq<char>,
    id: ConnectionId,
    sdp: Seq<char>,
)
    requires
        forall|j: int|
            0 <= j < hub.len() ==> (#[trigger] hub[j]).attachment.session_id != session
                || hub[j].attachment.offer_sdp is None,
    ensures
        ({
            let (after, step) = messages::answered(hub, session, id, sdp);
            &&& after == hub
            &&& step.outgoing is None
            &&& step.outcome.result == Err::<(), ErrorView>(ErrorView::UnexpectedAnswer)
        }),
{
    lemma_no_offerer(hub, session);
}

/// An answer is handed, as it was received, to the client that waits, and the two are paired.
/// Nothing else changes: the offer goes on waiting.
pub proof fn law_answer_is_handed_to_the_waiting_client(
    hub: Seq<ConnectionView>,
    session: Seq<char>,
    id: ConnectionId,
    sdp: Seq<char>,
    waiting: Seq<char>,
    w: int,
)
    requires
        0 <= w < hub.len(),
        hub[w].attachment.session_id == session,
        hub[w].attachment.offer_sdp == Some(waiting),
        forall|j: int|
            0 <= j < w ==> (#[trigger] hub[j]).attachment.session_id != session
                || hub[j].attachment.offer_sdp is None,
    ensures
        ({
            let (after, step) = messages::answered(hub, session, id, sdp);
            &&& step.outgoing == Some(OutgoingView { to: hub[w].id, packet: Some(WhichView::Answer(sdp)) })
            &&& step.outcome.required == false
            &&& step.outcome.result == Ok::<(), ErrorView>(())
            &&& after.len() == hub.len()
            &&& forall|i: int|
                0 <= i < hub.len() ==> #[trigger] after[i] == (ConnectionView {
                    id: hub[i].id,
                    attachment: AttachmentView {
                        session_id: hub[i].attachment.session_id,
                        protocol_version: hub[i].attachment.protocol_version,
                        offer_sdp: hub[i].attachment.offer_sdp,
                        connection_id: hub[i].attachment.connection_id,
                        peer_id: if hub[i].attachment.session_id != session {
                            hub[i].attachment.peer_id
                        } else if hub[i].id == hub[w].id {
                            Some(id)
                        } else if hub[i].id == id {
                            Some(hub[w].id)
                        } else {
                            hub[i].attachment.peer_id
                        },
                    },
                })
        }),
{
    lemma_offerer_at(hub, session, w);
}

/// Offers change only when somebody starts: any other message leaves every connection's offer,
/// and the identity that came with it, as they are.
pub proof fn law_only_a_start_changes_offers(
    hub: Seq<ConnectionView>,
    session: Seq<char>,
    id: ConnectionId,
    message: WsMessageView,
)
    requires
        !(message matches WsMessageView::Binary(Ok(Some(WhichView::Start(_))))),
    ensures
        ({
            let after = websocket::message_handled(hub, session, id, message).0;
            &&& after.len() == hub.len()
            &&& forall|i: int|
                0 <= i < hub.len() ==> {
                    &&& (#[trigger] after[i]).id == hub[i].id
                    &&& after[i].attachment.session_id == hub[i].attachment.session_id
                    &&& after[i].attachment.offer_sdp == hub[i].attachment.offer_sdp
                    &&& after[i].attachment.connection_id == hub[i].attachment.connection_id
                }
        }),
{
}

/// Pairings change only when somebody starts or answers.
pub proof fn law_only_a_start_or_an_answer_pairs(
    hub: Seq<ConnectionView>,
    session: Seq<char>,
    id: ConnectionId,
    message: WsMessageView,
)
    requires
        !(message matches WsMessageView::Binary(Ok(Some(WhichView::Start(_))))),
        !(message matches WsMessageView::Binary(Ok(Some(WhichView::Answer(_))))),
    ensures
        websocket::message_handled(hub, session, id, message).0 == hub,
{
}

/// The offer outlasts the answers to it: the client that starts next is handed the offer that
/// the waiting client stored, whoever answered before and whatever was answered.
pub proof fn law_offer_outlasts_answers(
    hub: Seq<ConnectionView>,
    session: Seq<char>,
    id: ConnectionId,
    sdp: Seq<char>,
    next: ConnectionId,
    start: StartView,
    waiting: Seq<char>,
    w: int,
)
    requires
        0 <= w < hub.len(),
        hub[w].attachment.session_id == session,
        hub[w].attachment.offer_sdp == Some(waiting),
        forall|j: int|
            0 <= j < w ==> (#[trigger] hub[j]).attachment.session_id != session
                || hub[j].attachment.offer_sdp is None,
        hub[w].id != next,
        start.connection_id is None || hub[w].attachment.connection_id is None
            || start.connection_id->0 != hub[w].attachment.connection_id->0,
    ensures
        ({
            let between = messages::answered(hub, session, id, sdp).0;
            let (after, step) = messages::started(between, session, next, start);
            &&& step.outgoing == Some(OutgoingView { to: next, packet: Some(WhichView::Offer(waiting)) })
            &&& step.outcome.required == true
            &&& step.outcome.result == Ok::<(), ErrorView>(())
            &&& between[w].attachment.offer_sdp == hub[w].attachment.offer_sdp
            &&& between[w].attachment.connection_id == hub[w].attachment.connection_id
            &&& after[w].attachment.offer_sdp == hub[w].attachment.offer_sdp
        }),
{
    law_answer_is_handed_to_the_waiting_client(hub, session, id, sdp, waiting, w);
    let between = messages::answered(hub, session, id, sdp).0;
    assert(between[w].id == hub[w].id);
    assert forall|j: int| 0 <= j < w implies (#[trigger] between[j]).attachment.session_id
        != session || between[j].attachment.offer_sdp is None by {
        assert(hub[j].attachment.session_id != session || hub[j].attachment.offer_sdp is None);
    }
    law_another_client_is_handed_the_waiting_offer(between, session, next, start, waiting, w);
}

/// The offer that a client stores is the one that the next client to start is handed: what one
/// wrote, the other reads.
pub proof fn law_stored_offer_is_the_one_handed_out(
    hub: Seq<ConnectionView>,
    session: Seq<char>,
    id: ConnectionId,
    first: StartView,
    next: ConnectionId,
    second: StartView,
    k: int,
)
    requires
        forall|j: int|
            0 <= j < hub.len() ==> (#[trigger] hub[j]).attachment.session_id != session
                || hub[j].attachment.offer_sdp is None,
        0 <= k < hub.len(),
        hub[k].attachment.session_id == session && hub[k].id == id,
        forall|j: int|
            0 <= j < k ==> (#[trigger] hub[j]).attachment.session_id != session || hub[j].id != id,
        next != id,
        first.connection_id is None || second.connection_id is None || first.connection_id->0
            != second.connection_id->0,
    ensures
        ({
            let between = messages::started(hub, session, id, first).0;
            let (after, step) = messages::started(between, session, next, second);
            &&& step.outgoing == Some(OutgoingView { to: next, packet: Some(WhichView::Offer(first.offer_sdp)) })
            &&& step.outcome.required == true
            &&& step.outcome.result == Ok::<(), ErrorView>(())
        }),
{
    law_first_to_start_waits(hub, session, id, first);
    let between = messages::started(hub, session, id, first).0;
    assert(between[k].attachment.offer_sdp == Some(first.offer_sdp));
    assert forall|j: int| 0 <= j < k implies (#[trigger] between[j]).attachment.session_id
        != session || between[j].attachment.offer_sdp is None by {
        assert(between[j] == hub[j]);
    }
    law_another_client_is_handed_the_waiting_offer(
        between,
        session,
        next,
        second,
        first.offer_sdp,
        k,
    );
}

/// A candidate of a paired client is handed, as it was received, to the client that it is paired
/// with, while that one is open.
pub proof fn law_candidate_goes_to_the_peer(
    hub: Seq<ConnectionView>,
    session: Seq<char>,
    id: ConnectionId,
    candidate: Seq<char>,
    peer: ConnectionId,
    k: int,
    m: int,
)
    requires
        0 <= k < hub.len(),
        hub[k].attachment.session_id == session && hub[k].id == id,
        forall|j: int|
            0 <= j < k ==> (#[trigger] hub[j]).attachment.session_id != session || hub[j].id != id,
        hub[k].attachment.peer_id == Some(peer),
        0 <= m < hub.len(),
        hub[m].attachment.session_id == session && hub[m].id == peer,
    ensures
        ({
            let step = messages::relayed(hub, session, id, candidate);
            &&& step.outgoing == Some(OutgoingView { to: peer, packet: Some(WhichView::IceCandidate(candidate)) })
            &&& step.outcome.required == false
            &&& step.outcome.result == Ok::<(), ErrorView>(())
        }),
{
    lemma_found_at(hub, session, id, k);
    crate::handlers::laws::lemma_by_id(hub, session, peer);
}

/// A candidate of a client that is not paired, or whose peer is gone, is handed, as it was
/// received, to the only other client of the session.
pub proof fn law_candidate_goes_to_the_only_other(
    hub: Seq<ConnectionView>,
    session: Seq<char>,
    id: ConnectionId,
    candidate: Seq<char>,
    o: int,
)
    requires
        forall|j: int, m: int|
            #![trigger hub[j], hub[m]]
            0 <= j < hub.len() && 0 <= m < hub.len() && hub[j].attachment.session_id == session
                && hub[j].id == id && hub[j].attachment.peer_id is Some
                && hub[m].attachment.session_id == session ==> hub[m].id
                != hub[j].attachment.peer_id->0,
        0 <= o < hub.len(),
        hub[o].attachment.session_id == session && hub[o].id != id,
        forall|j: int|
            0 <= j < hub.len() && j != o ==> (#[trigger] hub[j]).attachment.session_id != session
                || hub[j].id == id,
    ensures
        ({
            let step = messages::relayed(hub, session, id, candidate);
            &&& step.outgoing == Some(OutgoingView { to: hub[o].id, packet: Some(WhichView::IceCandidate(candidate)) })
            &&& step.outcome.required == false
            &&& step.outcome.result == Ok::<(), ErrorView>(())
        }),
{
    lemma_unpaired(hub, session, id);
    lemma_single_other(hub, session, id, o);
}

/// A candidate is handed to nobody where the client is not paired, or its peer is gone, and the
/// session holds no other client or more than one.
pub proof fn law_candidate_without_a_target_is_dropped(
    hub: Seq<ConnectionView>,
    session: Seq<char>,
    id: ConnectionId,
    candidate: Seq<char>,
)
    requires
        forall|j: int, m: int|
            #![trigger hub[j], hub[m]]
            0 <= j < hub.len() && 0 <= m < hub.len() && hub[j].attachment.session_id == session
                && hub[j].id == id && hub[j].attachment.peer_id is Some
                && hub[m].attachment.session_id == session ==> hub[m].id
                != hub[j].attachment.peer_id->0,
        hub.filter(|c: ConnectionView| c.attachment.session_id == session && c.id != id).len()
            != 1,
    ensures
        ({
            let step = messages::relayed(hub, session, id, candidate);
            &&& step.outgoing is None
            &&& !step.outcome.required
            &&& step.outcome.result == Ok::<(), ErrorView>(())
        }),
{
    lemma_unpaired(hub, session, id);
    hub::law_other_is_the_only_one(hub, session, id);
}

proof fn lemma_unpaired(hub: Seq<ConnectionView>, session: Seq<char>, id: ConnectionId)
    requires
        forall|j: int, m: int|
            #![trigger hub[j], hub[m]]
            0 <= j < hub.len() && 0 <= m < hub.len() && hub[j].attachment.session_id == session
                && hub[j].id == id && hub[j].attachment.peer_id is Some
                && hub[m].attachment.session_id == session ==> hub[m].id
                != hub[j].attachment.peer_id->0,
    ensures
        messages::paired(hub, session, id) is None,
{
    lemma_found_somewhere(hub, session, id);
    if let Some(own) = hub::connection_by_id(hub, session, id) {
        if let Some(peer) = own.attachment.peer_id {
            lemma_found_somewhere(hub, session, peer);
        }
    }
}

proof fn lemma_found_somewhere(hub: Seq<ConnectionView>, session: Seq<char>, id: ConnectionId)
    ensures
        match hub::connection_by_id(hub, session, id) {
            Some(c) => exists|k: int|
                0 <= k < hub.len() && #[trigger] hub[k] == c && c.attachment.session_id == session
                    && c.id == id,
            None => true,
        },
{
    let p = |c: ConnectionView| hub::is_member(c, session, id);
    if hub.filter(p).len() > 0 {
        hub.lemma_filter_pred(p, 0);
        assert(hub.filter(p).contains(hub.filter(p)[0]));
        hub.lemma_filter_contains_rev(p, hub.filter(p)[0]);
    }
}

proof fn lemma_single_other(
    hub: Seq<ConnectionView>,
    session: Seq<char>,
    id: ConnectionId,
    o: int,
)
    requires
        0 <= o < hub.len(),
        hub[o].attachment.session_id == session && hub[o].id != id,
        forall|j: int|
            0 <= j < hub.len() && j != o ==> (#[trigger] hub[j]).attachment.session_id != session
                || hub[j].id == id,
    ensures
        hub::other_connection(hub, session, id) == Some(hub[o]),
{
    let p = |c: ConnectionView| hub::is_other(c, session, id);
    let head = hub.take(o);
    let tail = hub.skip(o + 1);
    assert(hub =~= head.push(hub[o]) + tail);
    Seq::filter_distributes_over_add(head.push(hub[o]), tail, p);
    head.lemma_filter_push(hub[o], p);
    assert forall|j: int| 0 <= j < head.len() implies !p(#[trigger] head[j]) by {
        assert(head[j] == hub[j]);
    }
    assert forall|j: int| 0 <= j < tail.len() implies !p(#[trigger] tail[j]) by {
        assert(tail[j] == hub[j + o + 1]);
    }
    hub::lemma_filter_nothing(head, p);
    hub::lemma_filter_nothing(tail, p);
    assert(hub.filter(p) =~= seq![hub[o]]);
}

/// What is no packet ends the connection with the decoder's account of it, and changes nothing.
pub proof fn law_no_packet_is_an_error(
    hub: Seq<ConnectionView>,
    session: Seq<char>,
    id: ConnectionId,
    text: Seq<char>,
)
    ensures
        ({
            let (after, step) = websocket::message_handled(
                hub,
                session,
                id,
                WsMessageView::Binary(Err(text)),
            );
            &&& after == hub
            &&& step.outgoing is None
            &&& step.outcome.result == Err::<(), ErrorView>(ErrorView::Decode(text))
        }),
{
}

/// A greeting, an offer or an abort from a client is answered with an abort, and is an error.
pub proof fn law_clients_may_not_speak_for_the_server(
    hub: Seq<ConnectionView>,
    session: Seq<char>,
    id: ConnectionId,
    which: WhichView,
)
    requires
        which is Hello || which is Offer || which is Abort,
    ensures
        ({
            let (after, step) = websocket::message_handled(
                hub,
                session,
                id,
                WsMessageView::Binary(Ok(Some(which))),
            );
            &&& after == hub
            &&& step.outgoing == Some(OutgoingView { to: id, packet: Some(WhichView::Abort(AbortReason::Code(1))) })
            &&& step.outcome.required == true
            &&& step.outcome.result == Err::<(), ErrorView>(ErrorView::ServerOnlyPacket)
        }),
{
}

/// A start, an answer and a candidate are dealt with as such, whatever they hold.
pub proof fn law_packets_reach_their_handlers(
    hub: Seq<ConnectionView>,
    session: Seq<char>,
    id: ConnectionId,
    start: StartView,
    text: Seq<char>,
)
    ensures
        websocket::message_handled(
            hub,
            session,
            id,
            WsMessageView::Binary(Ok(Some(WhichView::Start(start)))),
        ) == messages::started(hub, session, id, start),
        websocket::message_handled(
            hub,
            session,
            id,
            WsMessageView::Binary(Ok(Some(WhichView::Answer(text)))),
        ) == messages::answered(hub, session, id, text),
        websocket::message_handled(
            hub,
            session,
            id,
            WsMessageView::Binary(Ok(Some(WhichView::IceCandidate(text)))),
        ) == (hub, messages::relayed(hub, session, id, text)),
{
}

/// A ping is answered with a ping.
pub proof fn law_ping_calls_for_a_ping(
    hub: Seq<ConnectionView>,
    session: Seq<char>,
    id: ConnectionId,
)
    ensures
        ({
            let (after, step) = websocket::message_handled(
                hub,
                session,
                id,
                WsMessageView::Binary(Ok(Some(WhichView::Ping))),
            );
            &&& after == hub
            &&& step.outgoing == Some(OutgoingView { to: id, packet: Some(WhichView::Ping) })
            &&& step.outcome.required == true
            &&& step.outcome.result == Ok::<(), ErrorView>(())
        }),
{
}

/// An empty packet, and a message that is neither binary nor the end of the socket, are ignored.
pub proof fn law_other_messages_are_ignored(
    hub: Seq<ConnectionView>,
    session: Seq<char>,
    id: ConnectionId,
    message: WsMessageView,
)
    requires
        message == WsMessageView::Binary(Ok(None)) || message is Other,
    ensures
        ({
            let (after, step) = websocket::message_handled(hub, session, id, message);
            &&& after == hub
            &&& step.outgoing is None
            &&& !step.outcome.required
            &&& step.outcome.result == Ok::<(), ErrorView>(())
        }),
{
}

/// A close message ends the connection, and changes nothing else.
pub proof fn law_close_message_is_an_error(
    hub: Seq<ConnectionView>,
    session: Seq<char>,
    id: ConnectionId,
)
    ensures
        ({
            let (after, step) = websocket::message_handled(
                hub,
                session,
                id,
                WsMessageView::Close,
            );
            &&& after == hub
            &&& step.outgoing is None
            &&& step.outcome.result == Err::<(), ErrorView>(ErrorView::ConnectionClosed)
        }),
{
}

/// When the ICE servers for a client have been found, it is greeted with all of them, in order
/// and unchanged.
pub proof fn law_greeting_lists_the_servers_found(
    hub: Seq<ConnectionView>,
    session: Seq<char>,
    id: ConnectionId,
    servers: Seq<IceServerView>,
)
    ensures
        ({
            let (after, action) = websocket::handled(
                hub,
                session,
                id,
                EventView::IceServers(servers),
            );
            &&& after == hub
            &&& action matches ActionView::Greet(outgoing)
            &&& outgoing.to == id
            &&& outgoing.packet matches Some(WhichView::Hello(listed))
            &&& listed.len() == servers.len()
            &&& forall|i: int|
                0 <= i < servers.len() ==> {
                    &&& (#[trigger] listed[i]).urls == servers[i].urls
                    &&& listed[i].username == servers[i].username
                    &&& listed[i].credential == servers[i].credential
                }
        }),
{
}

/// After the greeting the client's channel is forwarded, and then its messages are taken.
pub proof fn law_greeting_is_followed_by_service(
    hub: Seq<ConnectionView>,
    session: Seq<char>,
    id: ConnectionId,
)
    ensures
        websocket::handled(hub, session, id, EventView::Greeted(Ok(()))) == (
            hub,
            ActionView::Forward,
        ),
        websocket::handled(hub, session, id, EventView::Forwarding) == (hub, ActionView::Receive),
{
}

/// A failed greeting, a failed socket and the end of the socket end the connection: it, and
/// nobody else, leaves.
pub proof fn law_ends_of_the_socket_end_the_connection(
    hub: Seq<ConnectionView>,
    session: Seq<char>,
    id: ConnectionId,
    text: Seq<char>,
)
    ensures
        ({
            let without = hub.filter(
                |c: ConnectionView| c.attachment.session_id != session || c.id != id,
            );
            &&& websocket::handled(hub, session, id, EventView::Greeted(Err(text))) == (
                without,
                ActionView::Finish(Some(ErrorView::Send(text))),
            )
            &&& websocket::handled(hub, session, id, EventView::SocketFailed) == (
                without,
                ActionView::Finish(None),
            )
            &&& websocket::handled(hub, session, id, EventView::SocketEnded) == (
                without,
                ActionView::Finish(None),
            )
        }),
{
    hub::law_leaving_removes_one_connection(hub, session, id);
}

/// A message that calls for a packet has it delivered before anything else, as it was called
/// for.
pub proof fn law_packets_are_delivered_as_called_for(
    hub: Seq<ConnectionView>,
    session: Seq<char>,
    id: ConnectionId,
    message: WsMessageView,
    outgoing: OutgoingView,
)
    requires
        websocket::message_handled(hub, session, id, message).1.outgoing == Some(outgoing),
    ensures
        ({
            let (after, step) = websocket::message_handled(hub, session, id, message);
            websocket::handled(hub, session, id, EventView::Received(message)) == (
                after,
                ActionView::Deliver { outgoing, outcome: step.outcome },
            )
        }),
{
}

/// A message that calls for no packet lets the next one be taken, or ends the connection with
/// its error.
pub proof fn law_silent_messages_go_on_or_end(
    hub: Seq<ConnectionView>,
    session: Seq<char>,
    id: ConnectionId,
    message: WsMessageView,
)
    requires
        websocket::message_handled(hub, session, id, message).1.outgoing is None,
    ensures
        ({
            let (after, step) = websocket::message_handled(hub, session, id, message);
            let without = after.filter(
                |c: ConnectionView| c.attachment.session_id != session || c.id != id,
            );
            websocket::handled(hub, session, id, EventView::Received(message)) == match step.outcome.result {
                Ok(_) => (after, ActionView::Receive),
                Err(e) => (without, ActionView::Finish(Some(e))),
            }
        }),
{
    let after = websocket::message_handled(hub, session, id, message).0;
    hub::law_leaving_removes_one_connection(after, session, id);
}

/// What follows a delivery: a failure ends the connection where the packet had to arrive, and
/// only there; otherwise the result of the message decides.
pub proof fn law_deliveries_go_on_or_end(
    hub: Seq<ConnectionView>,
    session: Seq<char>,
    id: ConnectionId,
    outcome: OutcomeView,
    delivery: Result<(), Seq<char>>,
)
    ensures
        ({
            let without = hub.filter(
                |c: ConnectionView| c.attachment.session_id != session || c.id != id,
            );
            websocket::handled(hub, session, id, EventView::Delivered { outcome, delivery })
                == if delivery is Err && outcome.required {
                (without, ActionView::Finish(Some(ErrorView::Send(delivery->Err_0))))
            } else if outcome.result is Err {
                (without, ActionView::Finish(Some(outcome.result->Err_0)))
            } else {
                (hub, ActionView::Receive)
            }
        }),
{
    hub::law_leaving_removes_one_connection(hub, session, id);
}

/// A client that joins is the last of the open connections; it waits for nobody, is paired with
/// nobody, and the others stay as they are.
pub proof fn law_newcomers_start_afresh(
    hub: Seq<ConnectionView>,
    session: Seq<char>,
    id: ConnectionId,
    protocol_version: Option<u32>,
)
    ensures
        websocket::joined(hub, session, protocol_version, id) == hub.push(
            ConnectionView {
                id,
                attachment: AttachmentView {
                    session_id: session,
                    protocol_version,
                    offer_sdp: None,
                    connection_id: None,
                    peer_id: None,
                },
            },
        ),
{
}

/// A binary message is dealt with as the packet in it.
pub proof fn law_binary_messages_are_packets(
    hub: Seq<ConnectionView>,
    session: Seq<char>,
    id: ConnectionId,
    decoded: Result<Option<WhichView>, Seq<char>>,
)
    ensures
        websocket::message_handled(hub, session, id, WsMessageView::Binary(decoded))
            == websocket::packet_handled(hub, session, id, decoded),
{
}

/// Linking two connections of a session makes each the peer of the other, and changes nothing
/// else.
pub proof fn law_linking_is_mutual(
    hub: Seq<ConnectionView>,
    session: Seq<char>,
    a: ConnectionId,
    b: ConnectionId,
)
    ensures
        ({
            let after = messages::linked(hub, session, a, b);
            &&& after.len() == hub.len()
            &&& forall|i: int|
                0 <= i < hub.len() ==> #[trigger] after[i] == (ConnectionView {
                    id: hub[i].id,
                    attachment: AttachmentView {
                        session_id: hub[i].attachment.session_id,
                        protocol_version: hub[i].attachment.protocol_version,
                        offer_sdp: hub[i].attachment.offer_sdp,
                        connection_id: hub[i].attachment.connection_id,
                        peer_id: if hub[i].attachment.session_id != session {
                            hub[i].attachment.peer_id
                        } else if hub[i].id == b {
                            Some(a)
                        } else if hub[i].id == a {
                            Some(b)
                        } else {
                            hub[i].attachment.peer_id
                        },
                    },
                })
        }),
{
}

} // verus!
