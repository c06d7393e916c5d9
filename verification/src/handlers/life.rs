//! What holds of a connection from its beginning to its end.

use vstd::prelude::*;
use crate::config;
use crate::config::Config;
use crate::handlers::laws;
use crate::handlers::laws::Occurrence;
use crate::handlers::websocket;
use crate::handlers::websocket::{
    ActionView, EventView, ForwardAction, ForwardEvent, OutgoingMessage, RefusalView,
    WsMessageView,
};
use crate::hub;
use crate::hub::ConnectionView;
use crate::models::ConnectionId;
use crate::pb::{AbortReason, Reason, WhichView};

verus! {

/// A client that is turned away is told the reason, by an abort that stands in the place of the
/// greeting, and leaves the open connections as they were.
pub proof fn law_refused_clients_are_told_why(
    hub: Seq<ConnectionView>,
    config: Config,
    session: Seq<char>,
    protocol_version: Option<u32>,
    id: ConnectionId,
    reason: Reason,
)
    requires
        config::abort_reason(
            config.min_protocol_version,
            config.max_protocol_version,
            protocol_version,
        ) == Some(reason),
    ensures
        websocket::accepted(hub, config, session, protocol_version, id) == (
            hub,
            Err::<ConnectionId, RefusalView>(
                RefusalView {
                    reason,
                    packet: Some(WhichView::Abort(AbortReason::Named(reason))),
                },
            ),
        ),
{
}

/// Whatever happens to a connection, every other connection stays open, and none is opened.
pub proof fn law_nobody_else_comes_or_goes(
    hub: Seq<ConnectionView>,
    session: Seq<char>,
    id: ConnectionId,
    event: EventView,
    other: Seq<char>,
    who: ConnectionId,
)
    requires
        other != session || who != id,
    ensures
        laws::is_open(websocket::handled(hub, session, id, event).0, other, who)
            == laws::is_open(hub, other, who),
{
    let after = websocket::handled(hub, session, id, event).0;
    if other != session {
        laws::law_other_sessions_untouched(hub, session, id, event);
        laws::lemma_by_id_from_elsewhere(hub, session, other, who);
        laws::lemma_by_id_from_elsewhere(after, session, other, who);
    } else {
        laws::lemma_by_id_after_leave(hub, session, id, who);
        if let EventView::Received(message) = event {
            let midway = websocket::message_handled(hub, session, id, message).0;
            laws::lemma_by_id_after_leave(midway, session, id, who);
            if let Some(w) = hub::offerer(hub, session) {
                laws::lemma_by_id_after_link(hub, session, id, w.id, who);
            }
            if let WsMessageView::Binary(Ok(Some(WhichView::Start(start)))) = message {
                let holder = match hub::offerer(hub, session) {
                    Some(w) => w.id,
                    None => id,
                };
                laws::lemma_by_id_after_store(
                    hub,
                    session,
                    holder,
                    start.offer_sdp,
                    start.connection_id,
                    who,
                );
            }
        }
    }
}

/// Whether an event is what comes of the last action that was called for, or of none.
pub open spec fn follows(action: Option<ActionView>, event: EventView) -> bool {
    match action {
        None => event is IceServers,
        Some(ActionView::Greet(_)) => event is Greeted,
        Some(ActionView::Forward) => event is Forwarding,
        Some(ActionView::Receive) => event is Received || event is SocketFailed
            || event is SocketEnded,
        Some(ActionView::Deliver { outcome, .. }) => event matches EventView::Delivered {
            outcome: settled,
            ..
        } && settled == outcome,
        Some(ActionView::Finish(_)) => false,
    }
}

/// Whether an occurrence is an event in the life of the connection `id` of a session.
pub open spec fn is_own(occurrence: Occurrence, session: Seq<char>, id: ConnectionId) -> bool {
    match occurrence {
        Occurrence::Happened { session: s, id: i, .. } => s == session && i == id,
        Occurrence::Joined { .. } => false,
    }
}

/// The action that was last called for on behalf of the connection `id` of a session, after
/// occurrences that began with `hub`.
pub open spec fn last_action(
    hub: Seq<ConnectionView>,
    session: Seq<char>,
    id: ConnectionId,
    occurrences: Seq<Occurrence>,
) -> Option<ActionView>
    decreases occurrences.len(),
{
    if occurrences.len() == 0 {
        None
    } else {
        let earlier = occurrences.drop_last();
        match occurrences.last() {
            Occurrence::Happened { session: s, id: i, event } if s == session && i == id => Some(
                websocket::handled(laws::after_all(hub, earlier), session, id, event).1,
            ),
            _ => last_action(hub, session, id, earlier),
        }
    }
}

/// Whether the connection is finished.
pub open spec fn is_finished(action: Option<ActionView>) -> bool {
    action matches Some(ActionView::Finish(_))
}

/// How often the connection `id` of a session left the hub, after occurrences that began with
/// `hub`.
pub open spec fn departures(
    hub: Seq<ConnectionView>,
    session: Seq<char>,
    id: ConnectionId,
    occurrences: Seq<Occurrence>,
) -> nat
    decreases occurrences.len(),
{
    if occurrences.len() == 0 {
        0
    } else {
        let before = departures(hub, session, id, occurrences.drop_last());
        if is_own(occurrences.last(), session, id) && is_finished(
            last_action(hub, session, id, occurrences),
        ) {
            before + 1
        } else {
            before
        }
    }
}

/// Whether occurrences are possible in the life of the connection `id` of a session: each of its
/// own events is what comes of the last action that was called for, and nobody else is given its
/// identity. What happens to other connections is free.
pub open spec fn is_life(
    hub: Seq<ConnectionView>,
    session: Seq<char>,
    id: ConnectionId,
    occurrences: Seq<Occurrence>,
) -> bool
    decreases occurrences.len(),
{
    occurrences.len() > 0 ==> {
        let earlier = occurrences.drop_last();
        &&& is_life(hub, session, id, earlier)
        &&& match occurrences.last() {
            Occurrence::Happened { session: s, id: i, event } => s == session && i == id
                ==> follows(last_action(hub, session, id, earlier), event),
            Occurrence::Joined { session: s, id: i, .. } => !(s == session && i == id),
        }
    }
}

/// A client that joins leaves the hub once, at the end of its connection, and is open until
/// then: whatever happens meanwhile, it is in the hub exactly as long as its connection is not
/// finished, and it has left as often as its connection has finished, once or not at all.
pub proof fn law_joins_once_and_leaves_once(
    hub: Seq<ConnectionView>,
    session: Seq<char>,
    protocol_version: Option<u32>,
    id: ConnectionId,
    occurrences: Seq<Occurrence>,
)
    requires
        !laws::is_open(hub, session, id),
        is_life(websocket::joined(hub, session, protocol_version, id), session, id, occurrences),
    ensures
        ({
            let start = websocket::joined(hub, session, protocol_version, id);
            let finished = is_finished(last_action(start, session, id, occurrences));
            &&& laws::is_open(laws::after_all(start, occurrences), session, id) == !finished
            &&& departures(start, session, id, occurrences) == if finished {
                1nat
            } else {
                0nat
            }
        }),
    decreases occurrences.len(),
{
    let start = websocket::joined(hub, session, protocol_version, id);
    if occurrences.len() == 0 {
        let n = start.len() - 1;
        assert(hub::is_member(start[n], session, id));
        laws::lemma_by_id(start, session, id);
    } else {
        let earlier = occurrences.drop_last();
        law_joins_once_and_leaves_once(hub, session, protocol_version, id, earlier);
        let before = laws::after_all(start, earlier);
        match occurrences.last() {
            Occurrence::Happened { session: s, id: i, event } => {
                if s == session && i == id {
                    laws::law_finished_exactly_when_gone(before, session, id, event);
                } else {
                    law_nobody_else_comes_or_goes(before, s, i, event, session, id);
                }
            },
            Occurrence::Joined { session: s, protocol_version: v, id: i } => {
                lemma_join_of_another(before, s, v, i, session, id);
            },
        }
    }
}

proof fn lemma_join_of_another(
    hub: Seq<ConnectionView>,
    other: Seq<char>,
    protocol_version: Option<u32>,
    who: ConnectionId,
    session: Seq<char>,
    id: ConnectionId,
)
    requires
        other != session || who != id,
    ensures
        laws::is_open(websocket::joined(hub, other, protocol_version, who), session, id)
            == laws::is_open(hub, session, id),
{
    hub.lemma_filter_push(
        ConnectionView {
            id: who,
            attachment: crate::models::new_attachment(other, protocol_version),
        },
        |c: ConnectionView| hub::is_member(c, session, id),
    );
}

/// Whether the greeting of the connection `id` of a session has been handed on.
pub open spec fn was_greeted(
    session: Seq<char>,
    id: ConnectionId,
    occurrences: Seq<Occurrence>,
) -> bool {
    occurrences.contains(
        Occurrence::Happened { session, id, event: EventView::Greeted(Ok(())) },
    )
}

/// A client is greeted before it is served: what is first done for it is to hand it a greeting,
/// and no message of it is taken before that has succeeded.
pub proof fn law_greeted_before_served(
    hub: Seq<ConnectionView>,
    session: Seq<char>,
    id: ConnectionId,
    occurrences: Seq<Occurrence>,
)
    requires
        is_life(hub, session, id, occurrences),
    ensures
        match last_action(hub, session, id, occurrences) {
            None => !was_greeted(session, id, occurrences),
            Some(ActionView::Greet(outgoing)) => {
                &&& outgoing.to == id
                &&& outgoing.packet matches Some(WhichView::Hello(_))
                &&& !was_greeted(session, id, occurrences)
            },
            Some(ActionView::Forward) => was_greeted(session, id, occurrences),
            Some(ActionView::Receive) => was_greeted(session, id, occurrences),
            Some(ActionView::Deliver { .. }) => was_greeted(session, id, occurrences),
            Some(ActionView::Finish(_)) => true,
        },
        occurrences.len() > 0 && (occurrences.last() matches Occurrence::Happened {
            session: s,
            id: i,
            event,
        } && s == session && i == id && event is Received) ==> was_greeted(
            session,
            id,
            occurrences.drop_last(),
        ),
    decreases occurrences.len(),
{
    if occurrences.len() > 0 {
        let earlier = occurrences.drop_last();
        law_greeted_before_served(hub, session, id, earlier);
        let greeted = Occurrence::Happened { session, id, event: EventView::Greeted(Ok(())) };
        assert(occurrences =~= earlier.push(occurrences.last()));
        assert(earlier.contains(greeted) ==> occurrences.contains(greeted)) by {
            if earlier.contains(greeted) {
                let k = choose|k: int| 0 <= k < earlier.len() && earlier[k] == greeted;
                assert(occurrences[k] == greeted);
            }
        }
        assert(occurrences.contains(greeted) ==> earlier.contains(greeted)
            || occurrences.last() == greeted) by {
            if occurrences.contains(greeted) {
                let k = choose|k: int| 0 <= k < occurrences.len() && occurrences[k] == greeted;
                if k < earlier.len() {
                    assert(earlier[k] == greeted);
                }
            }
        }
        assert(occurrences[occurrences.len() - 1] == occurrences.last());
        if let Occurrence::Happened { session: s, id: i, event } = occurrences.last() {
            if let EventView::Greeted(Ok(done)) = event {
                assert(done == ());
            }
        }
    }
}

/// What the forwarding of a channel does after these events.
pub open spec fn forwarding_action(events: Seq<ForwardEvent>) -> ForwardAction {
    if events.len() == 0 {
        ForwardAction::Await
    } else {
        websocket::forwarded(events.last())
    }
}

/// Whether events are possible in the forwarding of a channel: each is what comes of the action
/// before it.
pub open spec fn is_forwarding(events: Seq<ForwardEvent>) -> bool
    decreases events.len(),
{
    events.len() > 0 ==> {
        let earlier = events.drop_last();
        &&& is_forwarding(earlier)
        &&& match forwarding_action(earlier) {
            ForwardAction::Await => events.last() is Queued || events.last() is QueueClosed,
            ForwardAction::Transmit(_) => events.last() is Sent || events.last() is Refused,
            ForwardAction::CloseSocket => false,
            ForwardAction::Stop => false,
        }
    }
}

/// The messages that the channel has yielded.
pub open spec fn yielded(events: Seq<ForwardEvent>) -> Seq<OutgoingMessage>
    decreases events.len(),
{
    if events.len() == 0 {
        Seq::empty()
    } else {
        match events.last() {
            ForwardEvent::Queued(message) => yielded(events.drop_last()).push(message),
            _ => yielded(events.drop_last()),
        }
    }
}

/// The packets that the socket was asked to send.
pub open spec fn transmitted(events: Seq<ForwardEvent>) -> Seq<Vec<u8>>
    decreases events.len(),
{
    if events.len() == 0 {
        Seq::empty()
    } else {
        match websocket::forwarded(events.last()) {
            ForwardAction::Transmit(data) => transmitted(events.drop_last()).push(data),
            _ => transmitted(events.drop_last()),
        }
    }
}

/// The packets that the socket has taken.
pub open spec fn written(events: Seq<ForwardEvent>) -> Seq<Vec<u8>>
    decreases events.len(),
{
    if events.len() == 0 {
        Seq::empty()
    } else {
        let earlier = events.drop_last();
        match (forwarding_action(earlier), events.last()) {
            (ForwardAction::Transmit(data), ForwardEvent::Sent) => written(earlier).push(data),
            _ => written(earlier),
        }
    }
}

/// Whether a queue holds the order to close.
pub open spec fn holds_close(queue: Seq<OutgoingMessage>) -> bool {
    exists|i: int| 0 <= i < queue.len() && #[trigger] queue[i] is Close
}

/// The packets of a queue that stand before its first order to close, in order.
pub open spec fn packets_before_close(queue: Seq<OutgoingMessage>) -> Seq<Vec<u8>>
    decreases queue.len(),
{
    if queue.len() == 0 {
        Seq::empty()
    } else {
        let earlier = queue.drop_last();
        match queue.last() {
            OutgoingMessage::Binary(data) if !holds_close(earlier) => packets_before_close(
                earlier,
            ).push(data),
            _ => packets_before_close(earlier),
        }
    }
}

proof fn lemma_packets_of_prefix(queue: Seq<OutgoingMessage>, n: int)
    requires
        0 <= n <= queue.len(),
    ensures
        packets_before_close(queue.take(n)).is_prefix_of(packets_before_close(queue)),
        holds_close(queue.take(n)) ==> packets_before_close(queue.take(n))
            == packets_before_close(queue),
    decreases queue.len(),
{
    if n < queue.len() {
        let earlier = queue.drop_last();
        lemma_packets_of_prefix(earlier, n);
        assert(earlier.take(n) =~= queue.take(n));
        if holds_close(queue.take(n)) {
            let i = choose|i: int| 0 <= i < n && #[trigger] queue.take(n)[i] is Close;
            assert(earlier[i] is Close);
        }
    } else {
        assert(queue.take(n) =~= queue);
    }
}

proof fn lemma_forwarding_so_far(events: Seq<ForwardEvent>)
    requires
        is_forwarding(events),
    ensures
        transmitted(events) == packets_before_close(yielded(events)),
        match forwarding_action(events) {
            ForwardAction::Await => written(events) == transmitted(events) && !holds_close(
                yielded(events),
            ),
            ForwardAction::Transmit(data) => transmitted(events) == written(events).push(data)
                && !holds_close(yielded(events)),
            ForwardAction::CloseSocket => written(events) == transmitted(events) && holds_close(
                yielded(events),
            ),
            ForwardAction::Stop => written(events).is_prefix_of(transmitted(events)),
        },
    decreases events.len(),
{
    if events.len() > 0 {
        let earlier = events.drop_last();
        lemma_forwarding_so_far(earlier);
        if let ForwardEvent::Queued(message) = events.last() {
            let queue = yielded(earlier).push(message);
            assert(queue.drop_last() =~= yielded(earlier));
            assert(queue[queue.len() - 1] == message);
            assert(message is Binary ==> !holds_close(queue)) by {
                if message is Binary && holds_close(queue) {
                    let i = choose|i: int| 0 <= i < queue.len() && #[trigger] queue[i] is Close;
                    assert(yielded(earlier)[i] is Close);
                }
            }
        }
    }
}

/// The forwarding of a channel is faithful: what the socket has taken are the first of the
/// packets that were queued before the first order to close, in order, each once and unchanged.
/// When the order to close is obeyed, the socket has taken all of them, and what was queued after
/// the order is never sent.
pub proof fn law_forwarding_is_faithful(
    queue: Seq<OutgoingMessage>,
    events: Seq<ForwardEvent>,
)
    requires
        is_forwarding(events),
        yielded(events).is_prefix_of(queue),
    ensures
        transmitted(events).is_prefix_of(packets_before_close(queue)),
        written(events).is_prefix_of(packets_before_close(queue)),
        forwarding_action(events) is CloseSocket ==> {
            &&& holds_close(queue)
            &&& written(events) == packets_before_close(queue)
        },
{
    let n = yielded(events).len() as int;
    assert(queue.take(n) =~= yielded(events));
    lemma_forwarding_so_far(events);
    lemma_packets_of_prefix(queue, n);
    if forwarding_action(events) is CloseSocket {
        let i = choose|i: int| 0 <= i < n && #[trigger] yielded(events)[i] is Close;
        assert(queue[i] is Close);
    }
}

/// Nothing follows the order to close: once it is obeyed, or the forwarding has stopped, no
/// further event is possible.
pub proof fn law_nothing_follows_the_close(events: Seq<ForwardEvent>, next: ForwardEvent)
    requires
        is_forwarding(events),
        forwarding_action(events) is CloseSocket || forwarding_action(events) is Stop,
    ensures
        !is_forwarding(events.push(next)),
{
    assert(events.push(next).drop_last() =~= events);
}

} // verus!
