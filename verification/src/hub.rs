//! The connections that are open, and how to find one in a session.

use vstd::prelude::*;
use crate::models::{AttachmentView, ConnectionId, SessionAttachment};
use crate::text;
use crate::text::{clone_text, same_text};

verus! {

/// An open connection.
#[derive(Debug, Clone, PartialEq, Eq)]
pub struct Connection {
    pub id: ConnectionId,
    pub attachment: SessionAttachment,
}

/// The model of a [`Connection`].
#[verifier::ext_equal]
pub struct ConnectionView {
    pub id: ConnectionId,
    pub attachment: AttachmentView,
}

impl View for Connection {
    type V = ConnectionView;

    open spec fn view(&self) -> ConnectionView {
        ConnectionView { id: self.id, attachment: self.attachment@ }
    }
}

/// Whether `c` is the connection `id` of a session.
pub open spec fn is_member(c: ConnectionView, session: Seq<char>, id: ConnectionId) -> bool {
    c.attachment.session_id == session && c.id == id
}

/// Whether `c` is in a session and holds an offer there.
pub open spec fn is_offerer(c: ConnectionView, session: Seq<char>) -> bool {
    c.attachment.session_id == session && c.attachment.offer_sdp is Some
}

/// Whether `c` is in a session but is not its connection `id`.
pub open spec fn is_other(c: ConnectionView, session: Seq<char>, id: ConnectionId) -> bool {
    c.attachment.session_id == session && c.id != id
}

/// The first element of a sequence, if it has one.
pub open spec fn first_of(s: Seq<ConnectionView>) -> Option<ConnectionView> {
    if s.len() > 0 {
        Some(s[0])
    } else {
        None
    }
}

/// The offerer of a session: the connection in it that holds an offer, the earliest to join if
/// there are several.
pub open spec fn offerer(hub: Seq<ConnectionView>, session: Seq<char>) -> Option<ConnectionView> {
    first_of(hub.filter(|c: ConnectionView| is_offerer(c, session)))
}

/// The connection `id` of a session.
pub open spec fn connection_by_id(
    hub: Seq<ConnectionView>,
    session: Seq<char>,
    id: ConnectionId,
) -> Option<ConnectionView> {
    first_of(hub.filter(|c: ConnectionView| is_member(c, session, id)))
}

/// The only connection of a session besides its connection `id`.
pub open spec fn other_connection(
    hub: Seq<ConnectionView>,
    session: Seq<char>,
    id: ConnectionId,
) -> Option<ConnectionView> {
    let others = hub.filter(|c: ConnectionView| is_other(c, session, id));
    if others.len() == 1 {
        Some(others[0])
    } else {
        None
    }
}

/// A connection with a new offer and the identity that came with it.
pub open spec fn with_offer(
    c: ConnectionView,
    sdp: Seq<char>,
    connection_id: Option<Seq<char>>,
) -> ConnectionView {
    ConnectionView {
        attachment: AttachmentView {
            offer_sdp: Some(sdp),
            connection_id,
            ..c.attachment
        },
        ..c
    }
}

/// A connection that is paired with `peer`.
pub open spec fn with_peer(c: ConnectionView, peer: ConnectionId) -> ConnectionView {
    ConnectionView {
        attachment: AttachmentView { peer_id: Some(peer), ..c.attachment },
        ..c
    }
}

/// The connections after the connection `id` of a session has stored an offer.
pub open spec fn offer_stored(
    hub: Seq<ConnectionView>,
    session: Seq<char>,
    id: ConnectionId,
    sdp: Seq<char>,
    connection_id: Option<Seq<char>>,
) -> Seq<ConnectionView> {
    hub.map_values(
        |c: ConnectionView|
            if is_member(c, session, id) {
                with_offer(c, sdp, connection_id)
            } else {
                c
            },
    )
}

/// The connections after the connection `id` of a session has been paired with `peer`.
pub open spec fn peer_recorded(
    hub: Seq<ConnectionView>,
    session: Seq<char>,
    id: ConnectionId,
    peer: ConnectionId,
) -> Seq<ConnectionView> {
    hub.map_values(
        |c: ConnectionView|
            if is_member(c, session, id) {
                with_peer(c, peer)
            } else {
                c
            },
    )
}

/// The connections after the connection `id` of a session has left.
pub open spec fn left(
    hub: Seq<ConnectionView>,
    session: Seq<char>,
    id: ConnectionId,
) -> Seq<ConnectionView> {
    hub.filter(|c: ConnectionView| !is_member(c, session, id))
}

/// Filtering one element more.
pub(crate) proof fn lemma_filter_step<A>(s: Seq<A>, n: int, p: spec_fn(A) -> bool)
    requires
        0 <= n < s.len(),
    ensures
        s.take(n + 1).filter(p) == if p(s[n]) {
            s.take(n).filter(p).push(s[n])
        } else {
            s.take(n).filter(p)
        },
{
    reveal(Seq::filter);
    assert(s.take(n + 1).drop_last() =~= s.take(n));
}

/// Where nothing satisfies the predicate, nothing is left.
pub(crate) proof fn lemma_filter_nothing<A>(s: Seq<A>, p: spec_fn(A) -> bool)
    requires
        forall|i: int| 0 <= i < s.len() ==> !p(#[trigger] s[i]),
    ensures
        s.filter(p) == Seq::<A>::empty(),
    decreases s.len(),
{
    reveal(Seq::filter);
    if s.len() > 0 {
        let rest = s.drop_last();
        assert forall|i: int| 0 <= i < rest.len() implies !p(#[trigger] rest[i]) by {
            assert(rest[i] == s[i]);
        }
        lemma_filter_nothing(rest, p);
    }
}

/// The first element that satisfies the predicate is the first that is left.
pub(crate) proof fn lemma_filter_first<A>(s: Seq<A>, n: int, p: spec_fn(A) -> bool)
    requires
        0 <= n < s.len(),
        p(s[n]),
        forall|i: int| 0 <= i < n ==> !p(#[trigger] s[i]),
    ensures
        s.filter(p).len() > 0,
        s.filter(p)[0] == s[n],
{
    let head = s.take(n);
    let tail = s.skip(n + 1);
    assert(s =~= s.take(n + 1) + tail);
    Seq::filter_distributes_over_add(s.take(n + 1), tail, p);
    lemma_filter_step(s, n, p);
    assert forall|i: int| 0 <= i < head.len() implies !p(#[trigger] head[i]) by {
        assert(head[i] == s[i]);
    }
    lemma_filter_nothing(head, p);
}

/// Where the offerer of a session stands.
pub(crate) proof fn lemma_offerer_position(hub: Seq<ConnectionView>, session: Seq<char>)
    ensures
        match offerer(hub, session) {
            Some(c) => exists|w: int|
                0 <= w < hub.len() && #[trigger] hub[w] == c && hub[w].attachment.session_id
                    == session && hub[w].attachment.offer_sdp is Some,
            None => true,
        },
{
    let p = |c: ConnectionView| is_offerer(c, session);
    if hub.filter(p).len() > 0 {
        hub.lemma_filter_pred(p, 0);
        assert(hub.filter(p).contains(hub.filter(p)[0]));
        hub.lemma_filter_contains_rev(p, hub.filter(p)[0]);
    }
}

/// The offerer of a session is the first connection to have joined of those that are in the
/// session and hold an offer; there is none exactly where no connection of the session holds one.
pub proof fn law_offerer_is_the_earliest_with_an_offer(
    hub: Seq<ConnectionView>,
    session: Seq<char>,
)
    ensures
        ({
            let waiting = hub.filter(
                |c: ConnectionView|
                    c.attachment.session_id == session && c.attachment.offer_sdp is Some,
            );
            offerer(hub, session) == if waiting.len() > 0 {
                Some(waiting[0])
            } else {
                None
            }
        }),
{
    assert((|c: ConnectionView| is_offerer(c, session)) =~= (|c: ConnectionView|
        c.attachment.session_id == session && c.attachment.offer_sdp is Some));
}

/// Looking a connection up by its identity finds the first of the session that has it.
pub proof fn law_lookup_goes_by_session_and_identity(
    hub: Seq<ConnectionView>,
    session: Seq<char>,
    id: ConnectionId,
)
    ensures
        ({
            let found = hub.filter(
                |c: ConnectionView| c.attachment.session_id == session && c.id == id,
            );
            connection_by_id(hub, session, id) == if found.len() > 0 {
                Some(found[0])
            } else {
                None
            }
        }),
{
    assert((|c: ConnectionView| is_member(c, session, id)) =~= (|c: ConnectionView|
        c.attachment.session_id == session && c.id == id));
}

/// The other connection of a session is the one with another identity, where there is exactly
/// one such.
pub proof fn law_other_is_the_only_one(
    hub: Seq<ConnectionView>,
    session: Seq<char>,
    id: ConnectionId,
)
    ensures
        ({
            let others = hub.filter(
                |c: ConnectionView| c.attachment.session_id == session && c.id != id,
            );
            other_connection(hub, session, id) == if others.len() == 1 {
                Some(others[0])
            } else {
                None
            }
        }),
{
    assert((|c: ConnectionView| is_other(c, session, id)) =~= (|c: ConnectionView|
        c.attachment.session_id == session && c.id != id));
}

/// Storing an offer sets the offer and the stated identity of the connection that stores it, and
/// touches nothing else of it and nothing of any other connection.
pub proof fn law_storing_sets_one_offer(
    hub: Seq<ConnectionView>,
    session: Seq<char>,
    id: ConnectionId,
    sdp: Seq<char>,
    connection_id: Option<Seq<char>>,
)
    ensures
        ({
            let after = offer_stored(hub, session, id, sdp, connection_id);
            &&& after.len() == hub.len()
            &&& forall|i: int|
                0 <= i < hub.len() ==> #[trigger] after[i] == if hub[i].attachment.session_id
                    == session && hub[i].id == id {
                    ConnectionView {
                        id: hub[i].id,
                        attachment: AttachmentView {
                            session_id: hub[i].attachment.session_id,
                            protocol_version: hub[i].attachment.protocol_version,
                            offer_sdp: Some(sdp),
                            connection_id,
                            peer_id: hub[i].attachment.peer_id,
                        },
                    }
                } else {
                    hub[i]
                }
        }),
{
}

/// Recording a peer sets the peer of one connection, and touches nothing else of it and nothing
/// of any other connection.
pub proof fn law_recording_sets_one_peer(
    hub: Seq<ConnectionView>,
    session: Seq<char>,
    id: ConnectionId,
    peer: ConnectionId,
)
    ensures
        ({
            let after = peer_recorded(hub, session, id, peer);
            &&& after.len() == hub.len()
            &&& forall|i: int|
                0 <= i < hub.len() ==> #[trigger] after[i] == if hub[i].attachment.session_id
                    == session && hub[i].id == id {
                    ConnectionView {
                        id: hub[i].id,
                        attachment: AttachmentView {
                            session_id: hub[i].attachment.session_id,
                            protocol_version: hub[i].attachment.protocol_version,
                            offer_sdp: hub[i].attachment.offer_sdp,
                            connection_id: hub[i].attachment.connection_id,
                            peer_id: Some(peer),
                        },
                    }
                } else {
                    hub[i]
                }
        }),
{
}

/// When a connection leaves, every other stays as it is and in its place.
pub proof fn law_leaving_removes_one_connection(
    hub: Seq<ConnectionView>,
    session: Seq<char>,
    id: ConnectionId,
)
    ensures
        left(hub, session, id) == hub.filter(
            |c: ConnectionView| c.attachment.session_id != session || c.id != id,
        ),
{
    assert((|c: ConnectionView| !is_member(c, session, id)) =~= (|c: ConnectionView|
        c.attachment.session_id != session || c.id != id));
}

/// The connections that are open.
pub struct MatchmakingHub {
    connections: Vec<Connection>,
}

impl View for MatchmakingHub {
    type V = Seq<ConnectionView>;

    /// The open connections, in the order in which they joined.
    closed spec fn view(&self) -> Seq<ConnectionView> {
        self.connections@.map_values(|c: Connection| c@)
    }
}

impl MatchmakingHub {
    /// A hub without connections.
    pub fn new() -> (r: Self)
        ensures
            r@ == Seq::<ConnectionView>::empty(),
    {
        let r = MatchmakingHub { connections: Vec::new() };
        assert(r@ =~= Seq::<ConnectionView>::empty());
        r
    }

    /// Opens a connection, in the session that its attachment names.
    pub fn add_connection(&mut self, connection: Connection)
        ensures
            final(self)@ == old(self)@.push(connection@),
    {
        self.connections.push(connection);
        assert(self@ =~= old(self)@.push(connection@));
    }

    /// Closes the connection `id` of a session.
    pub fn remove_connection(&mut self, session_id: &str, id: ConnectionId)
        ensures
            final(self)@ == left(old(self)@, session_id@, id),
    {
        let ghost before = self@;
        let ghost keep = |c: ConnectionView| !is_member(c, session_id@, id);
        let ghost mut seen: int = 0;
        let mut i: usize = 0;
        proof {
            assert(before.take(0).filter(keep) =~= Seq::empty()) by {
                reveal(Seq::filter);
            }
            assert(self@ =~= before.take(0).filter(keep) + before.skip(0));
        }
        while i < self.connections.len()
            invariant
                keep == (|c: ConnectionView| !is_member(c, session_id@, id)),
                0 <= seen <= before.len(),
                i == before.take(seen).filter(keep).len(),
                self@ == before.take(seen).filter(keep) + before.skip(seen),
                i <= self.connections.len(),
            decreases self.connections.len() - i,
        {
            let ghost now = self@;
            assert(self@[i as int] == before[seen]);
            proof {
                lemma_filter_step(before, seen, keep);
            }
            let c = &self.connections[i];
            if c.id == id && same_text(c.attachment.session_id.as_str(), session_id) {
                self.connections.remove(i);
                assert(self@ =~= now.remove(i as int));
            } else {
                i = i + 1;
            }
            proof {
                seen = seen + 1;
                assert(self@ =~= before.take(seen).filter(keep) + before.skip(seen));
            }
        }
        proof {
            assert(seen == before.len());
            assert(before.take(seen) =~= before);
            assert(self@ =~= before.filter(keep));
        }
    }

    /// The offerer of a session.
    pub fn find_offerer(&self, session_id: &str) -> (r: Option<&Connection>)
        ensures
            match r {
                Some(c) => offerer(self@, session_id@) == Some(c@),
                None => offerer(self@, session_id@) is None,
            },
    {
        let ghost p = |c: ConnectionView| is_offerer(c, session_id@);
        for i in 0..self.connections.len()
            invariant
                p == (|c: ConnectionView| is_offerer(c, session_id@)),
                forall|k: int| 0 <= k < i ==> !p(#[trigger] self@[k]),
        {
            let c = &self.connections[i];
            assert(self@[i as int] == c@);
            if c.attachment.offer_sdp.is_some() && same_text(
                c.attachment.session_id.as_str(),
                session_id,
            ) {
                proof {
                    lemma_filter_first(self@, i as int, p);
                }
                return Some(c);
            }
        }
        proof {
            lemma_filter_nothing(self@, p);
        }
        None
    }

    /// The connection `id` of a session.
    pub fn find_connection_by_id(&self, session_id: &str, id: ConnectionId) -> (r: Option<
        &Connection,
    >)
        ensures
            match r {
                Some(c) => connection_by_id(self@, session_id@, id) == Some(c@),
                None => connection_by_id(self@, session_id@, id) is None,
            },
    {
        let ghost p = |c: ConnectionView| is_member(c, session_id@, id);
        for i in 0..self.connections.len()
            invariant
                p == (|c: ConnectionView| is_member(c, session_id@, id)),
                forall|k: int| 0 <= k < i ==> !p(#[trigger] self@[k]),
        {
            let c = &self.connections[i];
            assert(self@[i as int] == c@);
            if c.id == id && same_text(c.attachment.session_id.as_str(), session_id) {
                proof {
                    lemma_filter_first(self@, i as int, p);
                }
                return Some(c);
            }
        }
        proof {
            lemma_filter_nothing(self@, p);
        }
        None
    }

    /// The only connection of a session besides its connection `id`. `None` where there is no
    /// other, and where there are several.
    pub fn find_other_connection(&self, session_id: &str, id: ConnectionId) -> (r: Option<
        &Connection,
    >)
        ensures
            match r {
                Some(c) => other_connection(self@, session_id@, id) == Some(c@),
                None => other_connection(self@, session_id@, id) is None,
            },
    {
        let ghost p = |c: ConnectionView| is_other(c, session_id@, id);
        let mut found: Option<usize> = None;
        assert(self@.take(0).filter(p) =~= Seq::empty()) by {
            reveal(Seq::filter);
        }
        for i in 0..self.connections.len()
            invariant
                p == (|c: ConnectionView| is_other(c, session_id@, id)),
                match found {
                    Some(k) => k < i && self@.take(i as int).filter(p) == seq![self@[k as int]],
                    None => self@.take(i as int).filter(p) == Seq::<ConnectionView>::empty(),
                },
        {
            let c = &self.connections[i];
            assert(self@[i as int] == c@);
            proof {
                lemma_filter_step(self@, i as int, p);
            }
            if c.id != id && same_text(c.attachment.session_id.as_str(), session_id) {
                if found.is_some() {
                    proof {
                        assert(self@ =~= self@.take(i + 1) + self@.skip(i + 1));
                        Seq::filter_distributes_over_add(
                            self@.take(i + 1),
                            self@.skip(i + 1),
                            p,
                        );
                    }
                    return None;
                }
                found = Some(i);
                assert(self@.take(i + 1).filter(p) =~= seq![self@[i as int]]);
            }
        }
        assert(self@.take(self@.len() as int) =~= self@);
        match found {
            Some(k) => Some(&self.connections[k]),
            None => None,
        }
    }

    /// Makes the connection `id` of a session hold an offer, and the identity that came with it.
    pub fn store_offer(
        &mut self,
        session_id: &str,
        id: ConnectionId,
        offer_sdp: &String,
        connection_id: &Option<String>,
    )
        ensures
            final(self)@ == offer_stored(
                old(self)@,
                session_id@,
                id,
                offer_sdp@,
                text::text_view(*connection_id),
            ),
    {
        let ghost before = self@;
        let ghost after = offer_stored(
            before,
            session_id@,
            id,
            offer_sdp@,
            text::text_view(*connection_id),
        );
        let len: usize = self.connections.len();
        for i in 0..len
            invariant
                len == before.len(),
                self@.len() == before.len(),
                self.connections.len() == len,
                after == offer_stored(
                    before,
                    session_id@,
                    id,
                    offer_sdp@,
                    text::text_view(*connection_id),
                ),
                forall|k: int| 0 <= k < i ==> #[trigger] self@[k] == after[k],
                forall|k: int| i <= k < len ==> #[trigger] self@[k] == before[k],
        {
            let ghost now = self@;
            assert(self@[i as int] == self.connections[i as int]@);
            let member = self.connections[i].id == id && same_text(
                self.connections[i].attachment.session_id.as_str(),
                session_id,
            );
            if member {
                self.connections[i].attachment.offer_sdp = Some(offer_sdp.clone());
                self.connections[i].attachment.connection_id = clone_text(connection_id);
                assert(self@ =~= now.update(i as int, self.connections[i as int]@));
            }
        }
        assert(self@ =~= after);
    }

    /// Pairs the connection `id` of a session with `peer`.
    pub fn record_peer(&mut self, session_id: &str, id: ConnectionId, peer: ConnectionId)
        ensures
            final(self)@ == peer_recorded(old(self)@, session_id@, id, peer),
    {
        let ghost before = self@;
        let ghost after = peer_recorded(before, session_id@, id, peer);
        let len: usize = self.connections.len();
        for i in 0..len
            invariant
                len == before.len(),
                self@.len() == before.len(),
                self.connections.len() == len,
                after == peer_recorded(before, session_id@, id, peer),
                forall|k: int| 0 <= k < i ==> #[trigger] self@[k] == after[k],
                forall|k: int| i <= k < len ==> #[trigger] self@[k] == before[k],
        {
            let ghost now = self@;
            assert(self@[i as int] == self.connections[i as int]@);
            let member = self.connections[i].id == id && same_text(
                self.connections[i].attachment.session_id.as_str(),
                session_id,
            );
            if member {
                self.connections[i].attachment.peer_id = Some(peer);
                assert(self@ =~= now.update(i as int, self.connections[i as int]@));
            }
        }
        assert(self@ =~= after);
    }
}

/// The model of a connection holds its identity and its state.
pub proof fn law_connection_models_are_faithful(connection: Connection)
    ensures
        connection@.id == connection.id,
        connection@.attachment == connection.attachment@,
{
}

} // verus!
