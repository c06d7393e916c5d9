//! What holds of the exchange between clients as a whole.

use vstd::prelude::*;
use crate::handlers;
use crate::handlers::messages;
use crate::handlers::websocket;
use crate::handlers::websocket::{ActionView, EventView, WsMessageView};
use crate::handlers::{ErrorView, OutcomeView, OutgoingView, StepView};
use crate::hub;
use crate::hub::ConnectionView;
use crate::models;
use crate::models::ConnectionId;
use crate::pb;
use crate::pb::{AbortReason, StartView, WhichView};

verus! {

/// Changing every element in a way that the predicate does not see, before or after filtering.
proof fn lemma_filter_of_map<A>(s: Seq<A>, g: spec_fn(A) -> A, p: spec_fn(A) -> bool)
    requires
        forall|a: A| p(#[trigger] g(a)) == p(a),
    ensures
        s.map_values(g).filter(p) == s.filter(p).map_values(g),
    decreases s.len(),
{
    reveal(Seq::filter);
    if s.len() > 0 {
        lemma_filter_of_map(s.drop_last(), g, p);
        assert(s.map_values(g).drop_last() =~= s.drop_last().map_values(g));
        assert(s.map_values(g).last() == g(s.last()));
    }
    assert(s.map_values(g).filter(p) =~= s.filter(p).map_values(g));
}

/// Filtering by `p` does not see a filter before it that lets everything with `p` through.
proof fn lemma_filter_of_filter<A>(s: Seq<A>, p: spec_fn(A) -> bool, q: spec_fn(A) -> bool)
    requires
        forall|a: A| #[trigger] p(a) ==> q(a),
    ensures
        s.filter(q).filter(p) == s.filter(p),
    decreases s.len(),
{
    reveal(Seq::filter);
    if s.len() > 0 {
        lemma_filter_of_filter(s.drop_last(), p, q);
        let rest = s.drop_last().filter(q);
        if q(s.last()) {
            assert(rest.push(s.last()).drop_last() =~= rest);
        }
    }
}

/// Where the first element that filtering leaves stands.
proof fn lemma_first_position<A>(s: Seq<A>, p: spec_fn(A) -> bool) -> (n: int)
    requires
        s.filter(p).len() > 0,
    ensures
        0 <= n < s.len(),
        p(s[n]),
        s.filter(p)[0] == s[n],
        forall|i: int| 0 <= i < n ==> !p(#[trigger] s[i]),
{
    if forall|i: int| 0 <= i < s.len() ==> !p(#[trigger] s[i]) {
        hub::lemma_filter_nothing(s, p);
    }
    let m = choose|i: int| 0 <= i < s.len() && p(#[trigger] s[i]);
    let n = lemma_least(s, p, m);
    hub::lemma_filter_first(s, n, p);
    n
}

/// The least position up to `m` whose element satisfies the predicate.
proof fn lemma_least<A>(s: Seq<A>, p: spec_fn(A) -> bool, m: int) -> (n: int)
    requires
        0 <= m < s.len(),
        p(s[m]),
    ensures
        0 <= n <= m,
        p(s[n]),
        forall|i: int| 0 <= i < n ==> !p(#[trigger] s[i]),
    decreases m,
{
    if exists|i: int| 0 <= i < m && p(#[trigger] s[i]) {
        let i = choose|i: int| 0 <= i < m && p(#[trigger] s[i]);
        lemma_least(s, p, i)
    } else {
        m
    }
}

/// The change that storing an offer makes to each connection.
spec fn storing(
    session: Seq<char>,
    id: ConnectionId,
    sdp: Seq<char>,
    connection_id: Option<Seq<char>>,
) -> spec_fn(ConnectionView) -> ConnectionView {
    |c: ConnectionView|
        if hub::is_member(c, session, id) {
            hub::with_offer(c, sdp, connection_id)
        } else {
            c
        }
}

/// The change that recording a peer makes to each connection.
spec fn recording(
    session: Seq<char>,
    id: ConnectionId,
    peer: ConnectionId,
) -> spec_fn(ConnectionView) -> ConnectionView {
    |c: ConnectionView|
        if hub::is_member(c, session, id) {
            hub::with_peer(c, peer)
        } else {
            c
        }
}

/// The connections outside a session, in the order in which they joined.
pub open spec fn elsewhere(hub: Seq<ConnectionView>, session: Seq<char>) -> Seq<ConnectionView> {
    hub.filter(|c: ConnectionView| c.attachment.session_id != session)
}

/// A change to the connections of a session is not seen outside it.
proof fn lemma_change_elsewhere(
    hub: Seq<ConnectionView>,
    session: Seq<char>,
    g: spec_fn(ConnectionView) -> ConnectionView,
)
    requires
        forall|c: ConnectionView|
            (#[trigger] g(c)).attachment.session_id == c.attachment.session_id,
        forall|c: ConnectionView| c.attachment.session_id != session ==> #[trigger] g(c) == c,
    ensures
        elsewhere(hub.map_values(g), session) == elsewhere(hub, session),
{
    let p = |c: ConnectionView| c.attachment.session_id != session;
    lemma_filter_of_map(hub, g, p);
    assert(hub.filter(p).map_values(g) =~= hub.filter(p)) by {
        assert forall|i: int| 0 <= i < hub.filter(p).len() implies g(
            #[trigger] hub.filter(p)[i],
        ) == hub.filter(p)[i] by {
            hub.lemma_filter_pred(p, i);
        }
    }
}

proof fn lemma_store_elsewhere(
    hub: Seq<ConnectionView>,
    session: Seq<char>,
    id: ConnectionId,
    sdp: Seq<char>,
    connection_id: Option<Seq<char>>,
)
    ensures
        elsewhere(hub::offer_stored(hub, session, id, sdp, connection_id), session) == elsewhere(
            hub,
            session,
        ),
{
    lemma_change_elsewhere(hub, session, storing(session, id, sdp, connection_id));
}

proof fn lemma_record_elsewhere(
    hub: Seq<ConnectionView>,
    session: Seq<char>,
    id: ConnectionId,
    peer: ConnectionId,
)
    ensures
        elsewhere(hub::peer_recorded(hub, session, id, peer), session) == elsewhere(hub, session),
{
    lemma_change_elsewhere(hub, session, recording(session, id, peer));
}

proof fn lemma_link_elsewhere(
    hub: Seq<ConnectionView>,
    session: Seq<char>,
    a: ConnectionId,
    b: ConnectionId,
)
    ensures
        elsewhere(messages::linked(hub, session, a, b), session) == elsewhere(hub, session),
{
    lemma_record_elsewhere(hub, session, a, b);
    lemma_record_elsewhere(hub::peer_recorded(hub, session, a, b), session, b, a);
}

proof fn lemma_leave_elsewhere(hub: Seq<ConnectionView>, session: Seq<char>, id: ConnectionId)
    ensures
        elsewhere(hub::left(hub, session, id), session) == elsewhere(hub, session),
{
    lemma_filter_of_filter(
        hub,
        |c: ConnectionView| c.attachment.session_id != session,
        |c: ConnectionView| !hub::is_member(c, session, id),
    );
}

proof fn lemma_message_elsewhere(
    hub: Seq<ConnectionView>,
    session: Seq<char>,
    id: ConnectionId,
    message: WsMessageView,
)
    ensures
        elsewhere(websocket::message_handled(hub, session, id, message).0, session) == elsewhere(
            hub,
            session,
        ),
{
    if let Some(w) = hub::offerer(hub, session) {
        lemma_link_elsewhere(hub, session, id, w.id);
        if let WsMessageView::Binary(Ok(Some(WhichView::Start(start)))) = message {
            lemma_store_elsewhere(hub, session, w.id, start.offer_sdp, start.connection_id);
        }
    } else if let WsMessageView::Binary(Ok(Some(WhichView::Start(start)))) = message {
        lemma_store_elsewhere(hub, session, id, start.offer_sdp, start.connection_id);
    }
}

/// Whatever happens to a connection, the connections of other sessions stay as they are.
pub proof fn law_other_sessions_untouched(
    hub: Seq<ConnectionView>,
    session: Seq<char>,
    id: ConnectionId,
    event: EventView,
)
    ensures
        elsewhere(websocket::handled(hub, session, id, event).0, session) == elsewhere(
            hub,
            session,
        ),
{
    lemma_leave_elsewhere(hub, session, id);
    if let EventView::Received(message) = event {
        lemma_message_elsewhere(hub, session, id, message);
        lemma_leave_elsewhere(
            websocket::message_handled(hub, session, id, message).0,
            session,
            id,
        );
    }
}

/// A message opens and closes no connection, moves none to another session, and leaves the
/// versions that the clients advertised: only offers and pairings change.
pub proof fn law_messages_keep_members(
    hub: Seq<ConnectionView>,
    session: Seq<char>,
    id: ConnectionId,
    message: WsMessageView,
)
    ensures
        ({
            let after = websocket::message_handled(hub, session, id, message).0;
            &&& after.len() == hub.len()
            &&& forall|i: int|
                0 <= i < hub.len() ==> {
                    &&& (#[trigger] after[i]).id == hub[i].id
                    &&& after[i].attachment.session_id == hub[i].attachment.session_id
                    &&& after[i].attachment.protocol_version == hub[i].attachment.protocol_version
                }
        }),
{
}

/// Whether no session holds two connections under one identity.
pub open spec fn distinct_members(hub: Seq<ConnectionView>) -> bool {
    forall|i: int, j: int|
        #![trigger hub[i], hub[j]]
        0 <= i < j < hub.len() ==> !(hub[i].id == hub[j].id && hub[i].attachment.session_id
            == hub[j].attachment.session_id)
}

/// Whether no session holds two offers.
pub open spec fn one_offer_per_session(hub: Seq<ConnectionView>) -> bool {
    forall|i: int, j: int|
        #![trigger hub[i], hub[j]]
        0 <= i < j < hub.len() ==> !(hub[i].attachment.offer_sdp is Some
            && hub[j].attachment.offer_sdp is Some && hub[i].attachment.session_id
            == hub[j].attachment.session_id)
}

/// Whether the sessions are in order: the connections of each can be told apart, and at most one
/// of them waits for an answerer.
pub open spec fn sound(hub: Seq<ConnectionView>) -> bool {
    distinct_members(hub) && one_offer_per_session(hub)
}

/// A hub without connections is in order.
pub proof fn law_empty_hub_is_sound()
    ensures
        sound(Seq::empty()),
{
}

/// A client that joins under an identity that is not in use in its session keeps the sessions in
/// order.
pub proof fn law_join_keeps_sound(
    hub: Seq<ConnectionView>,
    session: Seq<char>,
    protocol_version: Option<u32>,
    id: ConnectionId,
)
    requires
        sound(hub),
        forall|i: int| 0 <= i < hub.len() ==> !hub::is_member(#[trigger] hub[i], session, id),
    ensures
        sound(websocket::joined(hub, session, protocol_version, id)),
{
}

proof fn lemma_filter_keeps_sound(hub: Seq<ConnectionView>, p: spec_fn(ConnectionView) -> bool)
    requires
        sound(hub),
    ensures
        sound(hub.filter(p)),
    decreases hub.len(),
{
    reveal(Seq::filter);
    if hub.len() > 0 {
        let front = hub.drop_last();
        let kept = front.filter(p);
        assert(sound(front));
        lemma_filter_keeps_sound(front, p);
        if p(hub.last()) {
            let after = kept.push(hub.last());
            assert forall|i: int| 0 <= i < kept.len() implies exists|k: int|
                0 <= k < hub.len() - 1 && hub[k] == #[trigger] kept[i] by {
                assert(kept.contains(kept[i]));
                front.lemma_filter_contains_rev(p, kept[i]);
                let k = choose|k: int| 0 <= k < front.len() && front[k] == kept[i];
                assert(hub[k] == kept[i]);
            }
            assert(sound(after));
        }
    }
}

proof fn lemma_store_keeps_sound(
    hub: Seq<ConnectionView>,
    session: Seq<char>,
    id: ConnectionId,
    sdp: Seq<char>,
    connection_id: Option<Seq<char>>,
)
    requires
        sound(hub),
        forall|i: int|
            0 <= i < hub.len() && hub::is_offerer(#[trigger] hub[i], session) ==> hub[i].id == id,
    ensures
        sound(hub::offer_stored(hub, session, id, sdp, connection_id)),
{
}

/// In a hub whose sessions are in order, the connection that waits for an answerer is the
/// offerer of its session: no other choice is possible.
pub proof fn law_offerer_is_unique(hub: Seq<ConnectionView>, session: Seq<char>, i: int)
    requires
        one_offer_per_session(hub),
        0 <= i < hub.len(),
        hub::is_offerer(hub[i], session),
    ensures
        hub::offerer(hub, session) == Some(hub[i]),
{
    hub::lemma_filter_first(hub, i, |c: ConnectionView| hub::is_offerer(c, session));
}

/// Whatever happens to a connection, the sessions stay in order: above all, no session comes to
/// hold two offers.
pub proof fn law_events_keep_sound(
    hub: Seq<ConnectionView>,
    session: Seq<char>,
    id: ConnectionId,
    event: EventView,
)
    requires
        sound(hub),
    ensures
        sound(websocket::handled(hub, session, id, event).0),
{
    let leaving = |c: ConnectionView| !hub::is_member(c, session, id);
    lemma_filter_keeps_sound(hub, leaving);
    if let EventView::Received(message) = event {
        let after = websocket::message_handled(hub, session, id, message).0;
        assert(sound(after)) by {
            lemma_message_keeps_sound(hub, session, id, message);
        }
        lemma_filter_keeps_sound(after, leaving);
    }
}

proof fn lemma_message_keeps_sound(
    hub: Seq<ConnectionView>,
    session: Seq<char>,
    id: ConnectionId,
    message: WsMessageView,
)
    requires
        sound(hub),
    ensures
        sound(websocket::message_handled(hub, session, id, message).0),
{
    if let WsMessageView::Binary(Ok(Some(WhichView::Start(start)))) = message {
        let holder = match hub::offerer(hub, session) {
            Some(w) => w.id,
            None => id,
        };
        assert forall|i: int|
            0 <= i < hub.len() && hub::is_offerer(#[trigger] hub[i], session) implies hub[i].id
            == holder by {
            law_offerer_is_unique(hub, session, i);
        }
        lemma_store_keeps_sound(hub, session, holder, start.offer_sdp, start.connection_id);
    }
}

pub(crate) proof fn lemma_by_id(hub: Seq<ConnectionView>, session: Seq<char>, id: ConnectionId)
    ensures
        match hub::connection_by_id(hub, session, id) {
            Some(c) => hub::is_member(c, session, id),
            None => forall|i: int|
                0 <= i < hub.len() ==> !hub::is_member(#[trigger] hub[i], session, id),
        },
{
    let p = |c: ConnectionView| hub::is_member(c, session, id);
    if hub.filter(p).len() > 0 {
        hub.lemma_filter_pred(p, 0);
    } else {
        assert forall|i: int| 0 <= i < hub.len() implies !hub::is_member(
            #[trigger] hub[i],
            session,
            id,
        ) by {
            if p(hub[i]) {
                hub.lemma_filter_contains(p, i);
            }
        }
    }
}

/// A change of one connection's offer, seen by identity.
pub(crate) proof fn lemma_by_id_after_store(
    hub: Seq<ConnectionView>,
    session: Seq<char>,
    id: ConnectionId,
    sdp: Seq<char>,
    connection_id: Option<Seq<char>>,
    who: ConnectionId,
)
    ensures
        ({
            let after = hub::offer_stored(hub, session, id, sdp, connection_id);
            match hub::connection_by_id(hub, session, who) {
                Some(c) => hub::connection_by_id(after, session, who) == Some(
                    if who == id {
                        hub::with_offer(c, sdp, connection_id)
                    } else {
                        c
                    },
                ),
                None => hub::connection_by_id(after, session, who) is None,
            }
        }),
{
    lemma_filter_of_map(
        hub,
        storing(session, id, sdp, connection_id),
        |c: ConnectionView| hub::is_member(c, session, who),
    );
    lemma_by_id(hub, session, who);
}

/// A change of one connection's peer, seen by identity.
proof fn lemma_by_id_after_record(
    hub: Seq<ConnectionView>,
    session: Seq<char>,
    id: ConnectionId,
    peer: ConnectionId,
    who: ConnectionId,
)
    ensures
        ({
            let after = hub::peer_recorded(hub, session, id, peer);
            match hub::connection_by_id(hub, session, who) {
                Some(c) => hub::connection_by_id(after, session, who) == Some(
                    if who == id {
                        hub::with_peer(c, peer)
                    } else {
                        c
                    },
                ),
                None => hub::connection_by_id(after, session, who) is None,
            }
        }),
{
    lemma_filter_of_map(
        hub,
        recording(session, id, peer),
        |c: ConnectionView| hub::is_member(c, session, who),
    );
    lemma_by_id(hub, session, who);
}

/// A pairing of two connections, seen by identity.
pub(crate) proof fn lemma_by_id_after_link(
    hub: Seq<ConnectionView>,
    session: Seq<char>,
    a: ConnectionId,
    b: ConnectionId,
    who: ConnectionId,
)
    ensures
        ({
            let after = messages::linked(hub, session, a, b);
            match hub::connection_by_id(hub, session, who) {
                Some(c) => hub::connection_by_id(after, session, who) == Some(
                    if who == b {
                        hub::with_peer(c, a)
                    } else if who == a {
                        hub::with_peer(c, b)
                    } else {
                        c
                    },
                ),
                None => hub::connection_by_id(after, session, who) is None,
            }
        }),
{
    lemma_by_id_after_record(hub, session, a, b, who);
    lemma_by_id_after_record(hub::peer_recorded(hub, session, a, b), session, b, a, who);
}

/// A departure, seen by identity.
pub(crate) proof fn lemma_by_id_after_leave(
    hub: Seq<ConnectionView>,
    session: Seq<char>,
    id: ConnectionId,
    who: ConnectionId,
)
    ensures
        hub::connection_by_id(hub::left(hub, session, id), session, who) == if who == id {
            None
        } else {
            hub::connection_by_id(hub, session, who)
        },
{
    let stays = |c: ConnectionView| !hub::is_member(c, session, id);
    let member = |c: ConnectionView| hub::is_member(c, session, who);
    if who == id {
        let after = hub.filter(stays);
        assert forall|i: int| 0 <= i < after.len() implies !member(#[trigger] after[i]) by {
            hub.lemma_filter_pred(stays, i);
        }
        hub::lemma_filter_nothing(after, member);
    } else {
        lemma_filter_of_filter(hub, member, stays);
    }
}

/// The offerer of a session after two connections in it have been paired.
proof fn lemma_offerer_after_link(
    hub: Seq<ConnectionView>,
    session: Seq<char>,
    a: ConnectionId,
    b: ConnectionId,
)
    ensures
        match (
            hub::offerer(hub, session),
            hub::offerer(messages::linked(hub, session, a, b), session),
        ) {
            (Some(before), Some(after)) => {
                &&& after.id == before.id
                &&& after.attachment.offer_sdp == before.attachment.offer_sdp
                &&& after.attachment.connection_id == before.attachment.connection_id
            },
            (None, None) => true,
            _ => false,
        },
{
    let p = |c: ConnectionView| hub::is_offerer(c, session);
    lemma_filter_of_map(hub, recording(session, a, b), p);
    let half = hub::peer_recorded(hub, session, a, b);
    lemma_filter_of_map(half, recording(session, b, a), p);
}

/// Whether two connections of a session are paired with each other.
pub open spec fn is_paired(
    hub: Seq<ConnectionView>,
    session: Seq<char>,
    a: ConnectionId,
    b: ConnectionId,
) -> bool {
    match (hub::connection_by_id(hub, session, a), hub::connection_by_id(hub, session, b)) {
        (Some(x), Some(y)) => x.attachment.peer_id == Some(b) && y.attachment.peer_id == Some(a),
        _ => false,
    }
}

/// Whether the connection `id` of a session is open.
pub open spec fn is_open(hub: Seq<ConnectionView>, session: Seq<char>, id: ConnectionId) -> bool {
    hub::connection_by_id(hub, session, id) is Some
}

/// ICE candidates from either of two paired connections go to the other.
pub proof fn law_candidates_reach_the_peer(
    hub: Seq<ConnectionView>,
    session: Seq<char>,
    a: ConnectionId,
    b: ConnectionId,
    candidate: Seq<char>,
)
    requires
        is_paired(hub, session, a, b),
    ensures
        messages::relayed(hub, session, a, candidate) == (StepView {
                outgoing: Some(OutgoingView { to: b, packet: Some(WhichView::IceCandidate(candidate)) }),
                outcome: OutcomeView { required: false, result: Ok(()) },
            }),
        messages::relayed(hub, session, b, candidate) == (StepView {
                outgoing: Some(OutgoingView { to: a, packet: Some(WhichView::IceCandidate(candidate)) }),
                outcome: OutcomeView { required: false, result: Ok(()) },
            }),
{
    lemma_by_id(hub, session, a);
    lemma_by_id(hub, session, b);
}

/// Before a pairing has been recorded, ICE candidates of a connection that shares its session
/// with one other go to that one.
pub proof fn law_candidates_reach_the_only_other(
    hub: Seq<ConnectionView>,
    session: Seq<char>,
    x: ConnectionView,
    y: ConnectionView,
    candidate: Seq<char>,
)
    requires
        ({
            let members = hub.filter(|c: ConnectionView| c.attachment.session_id == session);
            members == seq![x, y] || members == seq![y, x]
        }),
        x.id != y.id,
        x.attachment.peer_id is None,
    ensures
        messages::relayed(hub, session, x.id, candidate) == (StepView {
                outgoing: Some(OutgoingView { to: y.id, packet: Some(WhichView::IceCandidate(candidate)) }),
                outcome: OutcomeView { required: false, result: Ok(()) },
            }),
{
    let here = |c: ConnectionView| c.attachment.session_id == session;
    let member = |c: ConnectionView| hub::is_member(c, session, x.id);
    let other = |c: ConnectionView| hub::is_other(c, session, x.id);
    let members = hub.filter(here);
    lemma_filter_of_filter(hub, member, here);
    lemma_filter_of_filter(hub, other, here);
    assert forall|i: int| 0 <= i < members.len() implies here(#[trigger] members[i]) by {
        hub.lemma_filter_pred(here, i);
    }
    assert(here(members[0]) && here(members[1]));
    let (first, second) = (members[0], members[1]);
    assert(members =~= Seq::empty().push(first).push(second));
    Seq::empty().push(first).lemma_filter_push(second, member);
    Seq::<ConnectionView>::empty().lemma_filter_push(first, member);
    Seq::empty().push(first).lemma_filter_push(second, other);
    Seq::<ConnectionView>::empty().lemma_filter_push(first, other);
    hub::lemma_filter_nothing(Seq::<ConnectionView>::empty(), member);
    hub::lemma_filter_nothing(Seq::<ConnectionView>::empty(), other);
}

/// A client that starts while another waits is the answerer: it receives the waiting offer, the
/// two are paired, and the offer goes on waiting.
pub proof fn law_start_pairs_with_the_offerer(
    hub: Seq<ConnectionView>,
    session: Seq<char>,
    id: ConnectionId,
    start: StartView,
    waiting: ConnectionView,
)
    requires
        is_open(hub, session, id),
        hub::offerer(hub, session) == Some(waiting),
        waiting.id != id,
        !(start.connection_id is Some && start.connection_id
            == waiting.attachment.connection_id),
    ensures
        ({
            let (after, step) = messages::started(hub, session, id, start);
            &&& step == (StepView {
                outgoing: Some(OutgoingView { to: id, packet: Some(WhichView::Offer(waiting.attachment.offer_sdp->0)) }),
                outcome: OutcomeView { required: true, result: Ok(()) },
            })
            &&& is_paired(after, session, id, waiting.id)
            &&& hub::offerer(after, session) is Some
            &&& hub::offerer(after, session)->0.id == waiting.id
            &&& hub::offerer(after, session)->0.attachment.offer_sdp
                == waiting.attachment.offer_sdp
        }),
{
    lemma_offerer_is_open(hub, session);
    lemma_offerer_after_link(hub, session, id, waiting.id);
    lemma_by_id_after_link(hub, session, id, waiting.id, id);
    lemma_by_id_after_link(hub, session, id, waiting.id, waiting.id);
}

proof fn lemma_offerer_is_open(hub: Seq<ConnectionView>, session: Seq<char>)
    ensures
        match hub::offerer(hub, session) {
            Some(w) => hub::is_offerer(w, session) && is_open(hub, session, w.id),
            None => true,
        },
{
    let p = |c: ConnectionView| hub::is_offerer(c, session);
    if hub.filter(p).len() > 0 {
        let n = lemma_first_position(hub, p);
        lemma_by_id(hub, session, hub[n].id);
    }
}

/// An answer goes to the connection whose offer is waiting, and pairs the two.
pub proof fn law_answer_reaches_the_offerer(
    hub: Seq<ConnectionView>,
    session: Seq<char>,
    id: ConnectionId,
    sdp: Seq<char>,
    waiting: ConnectionView,
)
    requires
        is_open(hub, session, id),
        hub::offerer(hub, session) == Some(waiting),
        waiting.id != id,
    ensures
        ({
            let (after, step) = messages::answered(hub, session, id, sdp);
            &&& step == (StepView {
                outgoing: Some(OutgoingView { to: waiting.id, packet: Some(WhichView::Answer(sdp)) }),
                outcome: OutcomeView { required: false, result: Ok(()) },
            })
            &&& is_paired(after, session, id, waiting.id)
        }),
{
    lemma_offerer_is_open(hub, session);
    lemma_by_id_after_link(hub, session, id, waiting.id, id);
    lemma_by_id_after_link(hub, session, id, waiting.id, waiting.id);
}

/// The whole exchange: a client waits with an offer; another starts and receives that offer; its
/// answer reaches the first; and from then on ICE candidates of each reach the other.
pub proof fn law_two_clients_are_connected(
    hub: Seq<ConnectionView>,
    session: Seq<char>,
    id: ConnectionId,
    start: StartView,
    answer: Seq<char>,
    candidate: Seq<char>,
    waiting: ConnectionView,
)
    requires
        is_open(hub, session, id),
        hub::offerer(hub, session) == Some(waiting),
        waiting.id != id,
        !(start.connection_id is Some && start.connection_id
            == waiting.attachment.connection_id),
    ensures
        ({
            let (first, offered) = messages::started(hub, session, id, start);
            let (second, replied) = messages::answered(first, session, id, answer);
            &&& offered == (StepView {
                outgoing: Some(OutgoingView { to: id, packet: Some(WhichView::Offer(waiting.attachment.offer_sdp->0)) }),
                outcome: OutcomeView { required: true, result: Ok(()) },
            })
            &&& replied == (StepView {
                outgoing: Some(OutgoingView { to: waiting.id, packet: Some(WhichView::Answer(answer)) }),
                outcome: OutcomeView { required: false, result: Ok(()) },
            })
            &&& messages::relayed(second, session, id, candidate) == (StepView {
                outgoing: Some(OutgoingView { to: waiting.id, packet: Some(WhichView::IceCandidate(candidate)) }),
                outcome: OutcomeView { required: false, result: Ok(()) },
            })
            &&& messages::relayed(second, session, waiting.id, candidate)
                == (StepView {
                outgoing: Some(OutgoingView { to: id, packet: Some(WhichView::IceCandidate(candidate)) }),
                outcome: OutcomeView { required: false, result: Ok(()) },
            })
        }),
{
    law_start_pairs_with_the_offerer(hub, session, id, start, waiting);
    let first = messages::started(hub, session, id, start).0;
    let still = hub::offerer(first, session)->0;
    law_answer_reaches_the_offerer(first, session, id, answer, still);
    let second = messages::answered(first, session, id, answer).0;
    law_candidates_reach_the_peer(second, session, id, waiting.id, candidate);
}

/// The start of a client that becomes the offerer, is the offerer, or states the identity of the
/// offerer, sets the offer that waits: the next answerer receives this one.
pub proof fn law_latest_offer_waits(
    hub: Seq<ConnectionView>,
    session: Seq<char>,
    id: ConnectionId,
    start: StartView,
)
    requires
        match hub::offerer(hub, session) {
            Some(w) => w.id == id || (start.connection_id is Some && start.connection_id
            == w.attachment.connection_id),
            None => is_open(hub, session, id),
        },
    ensures
        ({
            let (after, step) = messages::started(hub, session, id, start);
            &&& step == (StepView {
                outgoing: None,
                outcome: OutcomeView { required: false, result: Ok(()) },
            })
            &&& hub::offerer(after, session) is Some
            &&& hub::offerer(after, session)->0.attachment.offer_sdp == Some(start.offer_sdp)
            &&& hub::offerer(after, session)->0.attachment.connection_id == start.connection_id
        }),
{
    let p = |c: ConnectionView| hub::is_offerer(c, session);
    let after = messages::started(hub, session, id, start).0;
    let holder = match hub::offerer(hub, session) {
        Some(w) => w.id,
        None => id,
    };
    assert(after == hub::offer_stored(
        hub,
        session,
        holder,
        start.offer_sdp,
        start.connection_id,
    ));
    // A connection that holds the new offer, with no offer of another connection before it.
    let n = if hub.filter(p).len() > 0 {
        lemma_first_position(hub, p)
    } else {
        let member = |c: ConnectionView| hub::is_member(c, session, id);
        assert forall|i: int| 0 <= i < hub.len() implies !p(#[trigger] hub[i]) by {
            if p(hub[i]) {
                hub.lemma_filter_contains(p, i);
            }
        }
        lemma_first_position(hub, member)
    };
    assert(p(after[n]));
    let m = lemma_least(after, p, n);
    hub::lemma_filter_first(after, m, p);
    assert(hub::is_member(hub[m], session, holder));
}

/// The connection that an event pairs `id` with, if it pairs it at all.
pub open spec fn paired_by(
    hub: Seq<ConnectionView>,
    session: Seq<char>,
    id: ConnectionId,
    event: EventView,
) -> Option<ConnectionId> {
    match event {
        EventView::Received(WsMessageView::Binary(Ok(Some(WhichView::Start(start))))) => {
            match hub::offerer(hub, session) {
                Some(w) => if w.id == id || (start.connection_id is Some && start.connection_id
            == w.attachment.connection_id) {
                    None
                } else {
                    Some(w.id)
                },
                None => None,
            }
        },
        EventView::Received(WsMessageView::Binary(Ok(Some(WhichView::Answer(_))))) => {
            match hub::offerer(hub, session) {
                Some(w) => Some(w.id),
                None => None,
            }
        },
        _ => None,
    }
}

/// A pairing lasts for the rest of the session: until one of the two leaves or is paired with
/// somebody else, whatever happens to any connection of the session leaves it in place.
pub proof fn law_pairing_lasts(
    hub: Seq<ConnectionView>,
    session: Seq<char>,
    a: ConnectionId,
    b: ConnectionId,
    who: ConnectionId,
    event: EventView,
)
    requires
        is_paired(hub, session, a, b),
        who == a || who == b ==> websocket::handled(hub, session, who, event).1 !is Finish,
        match paired_by(hub, session, who, event) {
            Some(other) => {
                ||| who == a && other == b
                ||| who == b && other == a
                ||| who != a && who != b && other != a && other != b
            },
            None => true,
        },
    ensures
        is_paired(websocket::handled(hub, session, who, event).0, session, a, b),
{
    lemma_by_id_after_leave(hub, session, who, a);
    lemma_by_id_after_leave(hub, session, who, b);
    if let EventView::Received(message) = event {
        let after = websocket::message_handled(hub, session, who, message).0;
        if let Some(w) = hub::offerer(hub, session) {
            lemma_by_id_after_link(hub, session, who, w.id, a);
            lemma_by_id_after_link(hub, session, who, w.id, b);
        }
        if let WsMessageView::Binary(Ok(Some(WhichView::Start(start)))) = message {
            let holder = match hub::offerer(hub, session) {
                Some(w) => w.id,
                None => who,
            };
            lemma_by_id_after_store(
                hub,
                session,
                holder,
                start.offer_sdp,
                start.connection_id,
                a,
            );
            lemma_by_id_after_store(
                hub,
                session,
                holder,
                start.offer_sdp,
                start.connection_id,
                b,
            );
        }
        assert(is_paired(after, session, a, b));
        lemma_by_id_after_leave(after, session, who, a);
        lemma_by_id_after_leave(after, session, who, b);
    }
}

pub(crate) proof fn lemma_by_id_from_elsewhere(
    hub: Seq<ConnectionView>,
    other: Seq<char>,
    session: Seq<char>,
    id: ConnectionId,
)
    requires
        other != session,
    ensures
        hub::connection_by_id(hub, session, id) == hub::connection_by_id(
            elsewhere(hub, other),
            session,
            id,
        ),
{
    lemma_filter_of_filter(
        hub,
        |c: ConnectionView| hub::is_member(c, session, id),
        |c: ConnectionView| c.attachment.session_id != other,
    );
}

/// What happens in other sessions leaves a pairing in place.
pub proof fn law_pairing_lasts_across_sessions(
    hub: Seq<ConnectionView>,
    session: Seq<char>,
    a: ConnectionId,
    b: ConnectionId,
    other: Seq<char>,
    who: ConnectionId,
    event: EventView,
)
    requires
        is_paired(hub, session, a, b),
        other != session,
    ensures
        is_paired(websocket::handled(hub, other, who, event).0, session, a, b),
{
    let after = websocket::handled(hub, other, who, event).0;
    law_other_sessions_untouched(hub, other, who, event);
    lemma_by_id_from_elsewhere(hub, other, session, a);
    lemma_by_id_from_elsewhere(hub, other, session, b);
    lemma_by_id_from_elsewhere(after, other, session, a);
    lemma_by_id_from_elsewhere(after, other, session, b);
}

/// A client that joins leaves a pairing in place.
pub proof fn law_pairing_lasts_when_others_join(
    hub: Seq<ConnectionView>,
    session: Seq<char>,
    a: ConnectionId,
    b: ConnectionId,
    other: Seq<char>,
    protocol_version: Option<u32>,
    who: ConnectionId,
)
    requires
        is_paired(hub, session, a, b),
    ensures
        is_paired(websocket::joined(hub, other, protocol_version, who), session, a, b),
{
    let newcomer = ConnectionView {
        id: who,
        attachment: models::new_attachment(other, protocol_version),
    };
    hub.lemma_filter_push(newcomer, |c: ConnectionView| hub::is_member(c, session, a));
    hub.lemma_filter_push(newcomer, |c: ConnectionView| hub::is_member(c, session, b));
}

/// Leaving undoes joining under an identity that was not in use.
pub proof fn law_leaving_undoes_joining(
    hub: Seq<ConnectionView>,
    session: Seq<char>,
    protocol_version: Option<u32>,
    id: ConnectionId,
)
    requires
        !is_open(hub, session, id),
    ensures
        hub::left(websocket::joined(hub, session, protocol_version, id), session, id) == hub,
{
    let stays = |c: ConnectionView| !hub::is_member(c, session, id);
    lemma_by_id(hub, session, id);
    hub.lemma_filter_push(
        ConnectionView {
            id,
            attachment: models::new_attachment(session, protocol_version),
        },
        stays,
    );
    lemma_filter_everything(hub, stays);
}

proof fn lemma_filter_everything<A>(s: Seq<A>, p: spec_fn(A) -> bool)
    requires
        forall|i: int| 0 <= i < s.len() ==> p(#[trigger] s[i]),
    ensures
        s.filter(p) == s,
    decreases s.len(),
{
    reveal(Seq::filter);
    if s.len() > 0 {
        let rest = s.drop_last();
        assert forall|i: int| 0 <= i < rest.len() implies p(#[trigger] rest[i]) by {
            assert(rest[i] == s[i]);
        }
        lemma_filter_everything(rest, p);
        assert(rest.push(s.last()) =~= s);
    }
}

/// A client has left the hub when, and only when, its connection is finished.
pub proof fn law_finished_exactly_when_gone(
    hub: Seq<ConnectionView>,
    session: Seq<char>,
    id: ConnectionId,
    event: EventView,
)
    requires
        is_open(hub, session, id),
    ensures
        ({
            let (after, action) = websocket::handled(hub, session, id, event);
            action is Finish <==> !is_open(after, session, id)
        }),
{
    lemma_by_id_after_leave(hub, session, id, id);
    if let EventView::Received(message) = event {
        let after = websocket::message_handled(hub, session, id, message).0;
        lemma_by_id_after_leave(after, session, id, id);
        if let Some(w) = hub::offerer(hub, session) {
            lemma_by_id_after_link(hub, session, id, w.id, id);
        }
        if let WsMessageView::Binary(Ok(Some(WhichView::Start(start)))) = message {
            let holder = match hub::offerer(hub, session) {
                Some(w) => w.id,
                None => id,
            };
            lemma_by_id_after_store(
                hub,
                session,
                holder,
                start.offer_sdp,
                start.connection_id,
                id,
            );
        }
    }
}

/// A client that sends a packet which only the server may send is told so and dropped, whether
/// or not the news can be handed to it. Nobody else is affected.
pub proof fn law_server_only_packets_end_the_connection(
    hub: Seq<ConnectionView>,
    session: Seq<char>,
    id: ConnectionId,
    packet: Option<WhichView>,
    delivery: Result<(), Seq<char>>,
)
    requires
        pb::server_only(packet),
    ensures
        ({
            let (after, action) = websocket::handled(
                hub,
                session,
                id,
                EventView::Received(WsMessageView::Binary(Ok(packet))),
            );
            &&& after == hub
            &&& action matches ActionView::Deliver { outgoing, outcome }
            &&& outgoing == OutgoingView {
                to: id,
                packet: Some(WhichView::Abort(AbortReason::Code(1))),
            }
            &&& ({
                let (last, end) = websocket::handled(
                    after,
                    session,
                    id,
                    EventView::Delivered { outcome, delivery },
                );
                &&& last == hub::left(hub, session, id)
                &&& end is Finish
            })
        }),
{
}

/// A ping is answered with a ping, and changes nothing else.
pub proof fn law_ping_is_echoed(hub: Seq<ConnectionView>, session: Seq<char>, id: ConnectionId)
    ensures
        ({
            let (after, action) = websocket::handled(
                hub,
                session,
                id,
                EventView::Received(WsMessageView::Binary(Ok(Some(WhichView::Ping)))),
            );
            &&& after == hub
            &&& action matches ActionView::Deliver { outgoing, outcome }
            &&& outgoing == OutgoingView { to: id, packet: Some(WhichView::Ping) }
            &&& websocket::handled(
                after,
                session,
                id,
                EventView::Delivered { outcome, delivery: Ok(()) },
            ) == (hub, ActionView::Receive)
        }),
{
}

/// A client is never dropped because a packet could not be handed to another connection.
pub proof fn law_dropped_only_over_its_own_channel(
    hub: Seq<ConnectionView>,
    session: Seq<char>,
    id: ConnectionId,
    message: WsMessageView,
    error: Seq<char>,
)
    ensures
        ({
            let step = websocket::message_handled(hub, session, id, message).1;
            step.outgoing matches Some(outgoing) && outgoing.to != id ==> handlers::settled(
                step.outcome,
                Err(error),
            ) == Ok::<(), ErrorView>(())
        }),
{
}

/// Something that happens at the server.
pub enum Occurrence {
    /// A client joins a session.
    Joined {
        session: Seq<char>,
        protocol_version: Option<u32>,
        id: ConnectionId,
    },
    /// An event in the life of a connection.
    Happened {
        session: Seq<char>,
        id: ConnectionId,
        event: EventView,
    },
}

/// The open connections after an occurrence.
pub open spec fn after(hub: Seq<ConnectionView>, occurrence: Occurrence) -> Seq<ConnectionView> {
    match occurrence {
        Occurrence::Joined { session, protocol_version, id } => websocket::joined(
            hub,
            session,
            protocol_version,
            id,
        ),
        Occurrence::Happened { session, id, event } => websocket::handled(
            hub,
            session,
            id,
            event,
        ).0,
    }
}

/// The open connections after one occurrence upon another.
pub open spec fn after_all(
    hub: Seq<ConnectionView>,
    occurrences: Seq<Occurrence>,
) -> Seq<ConnectionView>
    decreases occurrences.len(),
{
    if occurrences.len() == 0 {
        hub
    } else {
        after(after_all(hub, occurrences.drop_last()), occurrences.last())
    }
}

/// Whether an occurrence gives nobody an identity that is in use in its session.
pub open spec fn is_fresh(hub: Seq<ConnectionView>, occurrence: Occurrence) -> bool {
    match occurrence {
        Occurrence::Joined { session, id, .. } => !is_open(hub, session, id),
        Occurrence::Happened { .. } => true,
    }
}

/// As long as no identity is drawn twice for one session, the sessions are in order whatever
/// happens: at most one connection of each waits for an answerer, at any time.
pub proof fn law_sessions_are_always_sound(occurrences: Seq<Occurrence>)
    requires
        forall|i: int|
            0 <= i < occurrences.len() ==> is_fresh(
                after_all(Seq::empty(), occurrences.take(i)),
                #[trigger] occurrences[i],
            ),
    ensures
        sound(after_all(Seq::empty(), occurrences)),
    decreases occurrences.len(),
{
    if occurrences.len() == 0 {
        law_empty_hub_is_sound();
    } else {
        let earlier = occurrences.drop_last();
        assert forall|i: int| 0 <= i < earlier.len() implies is_fresh(
            after_all(Seq::empty(), earlier.take(i)),
            #[trigger] earlier[i],
        ) by {
            assert(earlier.take(i) =~= occurrences.take(i));
            assert(earlier[i] == occurrences[i]);
        }
        law_sessions_are_always_sound(earlier);
        assert(earlier =~= occurrences.take(occurrences.len() - 1));
        let hub = after_all(Seq::empty(), earlier);
        let last = occurrences[occurrences.len() - 1];
        assert(is_fresh(hub, last));
        match last {
            Occurrence::Joined { session, protocol_version, id } => {
                lemma_by_id(hub, session, id);
                law_join_keeps_sound(hub, session, protocol_version, id);
            },
            Occurrence::Happened { session, id, event } => {
                law_events_keep_sound(hub, session, id, event);
            },
        }
    }
}

/// Whether an occurrence neither ends one of two connections of a session nor pairs one of them
/// with somebody else.
pub open spec fn spares(
    hub: Seq<ConnectionView>,
    session: Seq<char>,
    a: ConnectionId,
    b: ConnectionId,
    occurrence: Occurrence,
) -> bool {
    match occurrence {
        Occurrence::Joined { .. } => true,
        Occurrence::Happened { session: other, id, event } => other == session ==> {
            &&& id == a || id == b ==> websocket::handled(hub, session, id, event).1 !is Finish
            &&& paired_by(hub, session, id, event) matches Some(partner) ==> {
                ||| id == a && partner == b
                ||| id == b && partner == a
                ||| id != a && id != b && partner != a && partner != b
            }
        },
    }
}

/// ICE candidates of two paired connections go from each to the other for the rest of the
/// session: through any number of occurrences at the server, up to the one that ends one of the
/// two or pairs one of them with somebody else.
pub proof fn law_candidates_flow_for_the_rest_of_the_session(
    hub: Seq<ConnectionView>,
    session: Seq<char>,
    a: ConnectionId,
    b: ConnectionId,
    occurrences: Seq<Occurrence>,
    candidate: Seq<char>,
)
    requires
        is_paired(hub, session, a, b),
        forall|i: int|
            0 <= i < occurrences.len() ==> spares(
                after_all(hub, occurrences.take(i)),
                session,
                a,
                b,
                #[trigger] occurrences[i],
            ),
    ensures
        ({
            let now = after_all(hub, occurrences);
            &&& is_paired(now, session, a, b)
            &&& messages::relayed(now, session, a, candidate) == (StepView {
                outgoing: Some(OutgoingView { to: b, packet: Some(WhichView::IceCandidate(candidate)) }),
                outcome: OutcomeView { required: false, result: Ok(()) },
            })
            &&& messages::relayed(now, session, b, candidate) == (StepView {
                outgoing: Some(OutgoingView { to: a, packet: Some(WhichView::IceCandidate(candidate)) }),
                outcome: OutcomeView { required: false, result: Ok(()) },
            })
        }),
    decreases occurrences.len(),
{
    if occurrences.len() > 0 {
        let earlier = occurrences.drop_last();
        assert forall|i: int| 0 <= i < earlier.len() implies spares(
            after_all(hub, earlier.take(i)),
            session,
            a,
            b,
            #[trigger] earlier[i],
        ) by {
            assert(earlier.take(i) =~= occurrences.take(i));
            assert(earlier[i] == occurrences[i]);
        }
        law_candidates_flow_for_the_rest_of_the_session(hub, session, a, b, earlier, candidate);
        assert(earlier =~= occurrences.take(occurrences.len() - 1));
        let before = after_all(hub, earlier);
        let last = occurrences[occurrences.len() - 1];
        assert(spares(before, session, a, b, last));
        match last {
            Occurrence::Joined { session: other, protocol_version, id } => {
                law_pairing_lasts_when_others_join(
                    before,
                    session,
                    a,
                    b,
                    other,
                    protocol_version,
                    id,
                );
            },
            Occurrence::Happened { session: other, id, event } => {
                if other == session {
                    law_pairing_lasts(before, session, a, b, id, event);
                } else {
                    law_pairing_lasts_across_sessions(before, session, a, b, other, id, event);
                }
            },
        }
    }
    law_candidates_reach_the_peer(after_all(hub, occurrences), session, a, b, candidate);
}

} // verus!
