//! The life of a client's connection.

use vstd::prelude::*;
use crate::config;
use crate::config::Config;
use crate::handlers;
use crate::handlers::messages;
use crate::handlers::messages::{handle_answer, handle_ice_candidate, handle_start};
use crate::handlers::{
    ErrorView, HandlerError, Outcome, OutcomeView, Outgoing, OutgoingView, Step, StepView,
};
use crate::hub;
use crate::hub::{Connection, ConnectionView, MatchmakingHub};
use crate::models;
use crate::models::{AttachmentView, ConnectionId, IceServer, SessionAttachment};
use crate::pb;
use crate::pb::{AbortReason, IceServerView, Packet, Reason, Which, WhichView};
use crate::text::clone_text;

verus! {

/// Whether `id` is laid out as a random UUID: version 4, of the variant of RFC 9562.
pub open spec fn is_random_uuid(id: ConnectionId) -> bool {
    &&& (id.value >> 76) & 0xf == 4
    &&& (id.value >> 62) & 0x3 == 2
}

/// `uuid::Uuid::new_v4` draws a UUID from the operating system's random numbers and marks it as
/// such a UUID, by its version and variant bits. Nothing is said of the other bits: they are
/// random. It panics where the operating system yields no random numbers.
#[verifier::external_body]
fn new_connection_id() -> (r: ConnectionId)
    ensures
        is_random_uuid(r),
{
    ConnectionId { value: uuid::Uuid::new_v4().as_u128() }
}

/// The open connections after a client has joined a session as `id`.
pub open spec fn joined(
    hub: Seq<ConnectionView>,
    session: Seq<char>,
    protocol_version: Option<u32>,
    id: ConnectionId,
) -> Seq<ConnectionView> {
    hub.push(
        ConnectionView {
            id,
            attachment: models::new_attachment(session, protocol_version),
        },
    )
}

/// Lets a client join a session as `id`.
pub fn join(
    hub: &mut MatchmakingHub,
    session_id: &str,
    protocol_version: Option<u32>,
    id: ConnectionId,
)
    ensures
        final(hub)@ == joined(old(hub)@, session_id@, protocol_version, id),
{
    let mut attachment = SessionAttachment::new(session_id.to_owned());
    attachment.protocol_version = protocol_version;
    hub.add_connection(Connection { id, attachment });
}

/// The packet that a client reads in place of the greeting when it is turned away.
pub open spec fn rejection_packet(reason: Reason) -> Option<WhichView> {
    Some(WhichView::Abort(AbortReason::Named(reason)))
}

/// The packet that a client reads in place of the greeting when it is turned away.
pub fn rejection(reason: Reason) -> (r: Packet)
    ensures
        r@ == rejection_packet(reason),
        r.which matches Some(Which::Abort(sent)) && sent.reason == AbortReason::Named(reason),
{
    Packet { which: Some(Which::Abort(pb::Abort { reason: AbortReason::Named(reason) })) }
}

/// A client is turned away: why, and the packet that tells it so.
#[derive(Debug, PartialEq, Eq)]
pub struct Refusal {
    pub reason: Reason,
    pub packet: Packet,
}

/// The model of a [`Refusal`].
#[verifier::ext_equal]
pub struct RefusalView {
    pub reason: Reason,
    pub packet: Option<WhichView>,
}

impl View for Refusal {
    type V = RefusalView;

    open spec fn view(&self) -> RefusalView {
        RefusalView { reason: self.reason, packet: self.packet@ }
    }
}

/// What becomes of a client that connects to a session and for which `id` is drawn: it joins, or
/// it is turned away and told why.
pub open spec fn accepted(
    hub: Seq<ConnectionView>,
    config: Config,
    session: Seq<char>,
    protocol_version: Option<u32>,
    id: ConnectionId,
) -> (Seq<ConnectionView>, Result<ConnectionId, RefusalView>) {
    match config::abort_reason(
        config.min_protocol_version,
        config.max_protocol_version,
        protocol_version,
    ) {
        Some(reason) => (
            hub,
            Err(RefusalView { reason, packet: rejection_packet(reason) }),
        ),
        None => (joined(hub, session, protocol_version, id), Ok(id)),
    }
}

/// Lets a client join a session under an identity drawn for it, or turns it away: its signaling
/// protocol version may fall outside the range that the server is configured to matchmake for.
pub fn accept(
    hub: &mut MatchmakingHub,
    config: &Config,
    session_id: &str,
    protocol_version: Option<u32>,
) -> (r: Result<ConnectionId, Refusal>)
    ensures
        match config::abort_reason(
            config.min_protocol_version,
            config.max_protocol_version,
            protocol_version,
        ) {
            Some(reason) => {
                &&& final(hub)@ == old(hub)@
                &&& r matches Err(refusal)
                &&& refusal.reason == reason
                &&& refusal.packet@ == Some(WhichView::Abort(AbortReason::Named(reason)))
                &&& refusal.packet.which matches Some(Which::Abort(sent))
                &&& sent.reason == AbortReason::Named(reason)
            },
            None => {
                &&& r matches Ok(id)
                &&& is_random_uuid(id)
                &&& final(hub)@ == old(hub)@.push(
                    ConnectionView {
                        id,
                        attachment: AttachmentView {
                            session_id: session_id@,
                            protocol_version,
                            offer_sdp: None,
                            connection_id: None,
                            peer_id: None,
                        },
                    },
                )
            },
        },
        match r {
            Ok(id) => (final(hub)@, Ok::<ConnectionId, RefusalView>(id))
                == accepted(
                old(hub)@,
                *config,
                session_id@,
                protocol_version,
                id,
            ),
            Err(refusal) => forall|id: ConnectionId|
                (final(hub)@, Err::<ConnectionId, RefusalView>(refusal@)) == #[trigger] accepted(
                    old(hub)@,
                    *config,
                    session_id@,
                    protocol_version,
                    id,
                ),
        },
{
    if let Some(reason) = config.protocol_version_abort_reason(protocol_version) {
        return Err(Refusal { reason, packet: rejection(reason) });
    }
    let id = new_connection_id();
    join(hub, session_id, protocol_version, id);
    Ok(id)
}

/// What arrives over a client's socket.
#[derive(Debug, PartialEq, Eq)]
pub enum WsMessage {
    /// A binary message: the packet in it, or the decoder's account of why there is none.
    Binary(Result<Packet, String>),
    /// The client closes the socket.
    Close,
    /// Anything else that a socket can carry.
    Other,
}

/// The model of a [`WsMessage`].
#[verifier::ext_equal]
pub enum WsMessageView {
    Binary(Result<Option<WhichView>, Seq<char>>),
    Close,
    Other,
}

/// The model of a decoded packet.
pub open spec fn decoded_view(decoded: Result<Packet, String>) -> Result<
    Option<WhichView>,
    Seq<char>,
> {
    match decoded {
        Ok(packet) => Ok(packet@),
        Err(text) => Err(text@),
    }
}

impl View for WsMessage {
    type V = WsMessageView;

    open spec fn view(&self) -> WsMessageView {
        match self {
            WsMessage::Binary(decoded) => WsMessageView::Binary(decoded_view(*decoded)),
            WsMessage::Close => WsMessageView::Close,
            WsMessage::Other => WsMessageView::Other,
        }
    }
}

/// The number of the abort that answers a packet which only the server may send.
pub const UNEXPECTED_PACKET: i32 = 1;

/// What a binary message from the connection `id` does.
pub open spec fn packet_handled(
    hub: Seq<ConnectionView>,
    session: Seq<char>,
    id: ConnectionId,
    decoded: Result<Option<WhichView>, Seq<char>>,
) -> (Seq<ConnectionView>, StepView) {
    match decoded {
        Err(text) => (hub, handlers::silent_step(Err(ErrorView::Decode(text)))),
        Ok(packet) => if pb::server_only(packet) {
            (
                hub,
                handlers::required_step(
                    id,
                    WhichView::Abort(AbortReason::Code(UNEXPECTED_PACKET)),
                    Err(ErrorView::ServerOnlyPacket),
                ),
            )
        } else {
            match packet {
                Some(WhichView::Start(start)) => messages::started(
                    hub,
                    session,
                    id,
                    start,
                ),
                Some(WhichView::Answer(sdp)) => messages::answered(
                    hub,
                    session,
                    id,
                    sdp,
                ),
                Some(WhichView::Ping) => (
                    hub,
                    handlers::required_step(id, WhichView::Ping, Ok(())),
                ),
                Some(WhichView::IceCandidate(candidate)) => (
                    hub,
                    messages::relayed(hub, session, id, candidate),
                ),
                _ => (hub, handlers::silent_step(Ok(()))),
            }
        },
    }
}

/// Deals with a binary message from a client.
pub fn handle_packet(
    connection: ConnectionId,
    hub: &mut MatchmakingHub,
    session_id: &str,
    decoded: Result<Packet, String>,
) -> (r: Step)
    ensures
        (final(hub)@, r@) == packet_handled(
            old(hub)@,
            session_id@,
            connection,
            decoded_view(decoded),
        ),
{
    let packet = match decoded {
        Ok(packet) => packet,
        Err(text) => {
            return Step::silent(Err(HandlerError::Decode(text)));
        },
    };

    if packet.is_server_only() {
        return Step::required(
            send_abort_packet(connection, UNEXPECTED_PACKET),
            Err(HandlerError::ServerOnlyPacket),
        );
    }
    match &packet.which {
        Some(Which::Start(start)) => handle_start(connection, hub, session_id, start),
        Some(Which::Answer(answer)) => handle_answer(connection, hub, session_id, answer),
        Some(Which::Ping(_)) => Step::required(send_ping_packet(connection), Ok(())),
        Some(Which::IceCandidate(candidate)) => handle_ice_candidate(
            connection,
            hub,
            session_id,
            candidate,
        ),
        _ => Step::silent(Ok(())),
    }
}

/// What a message from the connection `id` does.
pub open spec fn message_handled(
    hub: Seq<ConnectionView>,
    session: Seq<char>,
    id: ConnectionId,
    message: WsMessageView,
) -> (Seq<ConnectionView>, StepView) {
    match message {
        WsMessageView::Binary(decoded) => packet_handled(hub, session, id, decoded),
        WsMessageView::Close => (
            hub,
            handlers::silent_step(Err(ErrorView::ConnectionClosed)),
        ),
        WsMessageView::Other => (hub, handlers::silent_step(Ok(()))),
    }
}

/// Deals with a message from a client.
pub fn handle_ws_message(
    connection: ConnectionId,
    hub: &mut MatchmakingHub,
    session_id: &str,
    msg: WsMessage,
) -> (r: Step)
    ensures
        (final(hub)@, r@) == message_handled(old(hub)@, session_id@, connection, msg@),
{
    match msg {
        WsMessage::Binary(decoded) => handle_packet(connection, hub, session_id, decoded),
        WsMessage::Close => Step::silent(Err(HandlerError::ConnectionClosed)),
        WsMessage::Other => Step::silent(Ok(())),
    }
}

/// What has happened to a client that was let in.
#[derive(Debug, PartialEq, Eq)]
pub enum Event {
    /// The ICE servers that the client is to use have been found.
    IceServers(Vec<IceServer>),
    /// The greeting has been handed to the client's channel, or could not be.
    Greeted(Result<(), String>),
    /// What the client's channel holds is now being forwarded to its socket.
    Forwarding,
    /// A message has arrived over the socket.
    Received(WsMessage),
    /// The socket has failed.
    SocketFailed,
    /// The socket has ended.
    SocketEnded,
    /// The packet that a message caused has been handed to its channel, or could not be.
    Delivered {
        outcome: Outcome,
        delivery: Result<(), String>,
    },
}

/// The model of an [`Event`].
#[verifier::ext_equal]
pub enum EventView {
    IceServers(Seq<IceServerView>),
    Greeted(Result<(), Seq<char>>),
    Forwarding,
    Received(WsMessageView),
    SocketFailed,
    SocketEnded,
    Delivered {
        outcome: OutcomeView,
        delivery: Result<(), Seq<char>>,
    },
}

impl View for Event {
    type V = EventView;

    open spec fn view(&self) -> EventView {
        match self {
            Event::IceServers(servers) => EventView::IceServers(ice_servers_view(servers@)),
            Event::Greeted(delivery) => EventView::Greeted(
                handlers::delivery_view(*delivery),
            ),
            Event::Forwarding => EventView::Forwarding,
            Event::Received(message) => EventView::Received(message@),
            Event::SocketFailed => EventView::SocketFailed,
            Event::SocketEnded => EventView::SocketEnded,
            Event::Delivered { outcome, delivery } => EventView::Delivered {
                outcome: outcome@,
                delivery: handlers::delivery_view(*delivery),
            },
        }
    }
}

/// What to do next for a client that was let in.
#[derive(Debug, PartialEq, Eq)]
pub enum Action {
    /// Hand the greeting to the client's channel; it comes back as [`Event::Greeted`].
    Greet(Outgoing),
    /// Start to forward what the client's channel holds; it comes back as
    /// [`Event::Forwarding`].
    Forward,
    /// Wait for the socket.
    Receive,
    /// Hand a packet to the channel of its connection; it comes back as [`Event::Delivered`].
    Deliver {
        outgoing: Outgoing,
        outcome: Outcome,
    },
    /// The client has left the hub: release what it held. Holds the error that ended it, if one
    /// did.
    Finish(Option<HandlerError>),
}

/// The model of an [`Action`].
#[verifier::ext_equal]
pub enum ActionView {
    Greet(OutgoingView),
    Forward,
    Receive,
    Deliver {
        outgoing: OutgoingView,
        outcome: OutcomeView,
    },
    Finish(Option<ErrorView>),
}

impl View for Action {
    type V = ActionView;

    open spec fn view(&self) -> ActionView {
        match self {
            Action::Greet(outgoing) => ActionView::Greet(outgoing@),
            Action::Forward => ActionView::Forward,
            Action::Receive => ActionView::Receive,
            Action::Deliver { outgoing, outcome } => ActionView::Deliver {
                outgoing: outgoing@,
                outcome: outcome@,
            },
            Action::Finish(Some(e)) => ActionView::Finish(Some(e@)),
            Action::Finish(None) => ActionView::Finish(None),
        }
    }
}

/// What follows a message that came to `result`: the next message, or the end of the connection.
pub open spec fn continued(
    hub: Seq<ConnectionView>,
    session: Seq<char>,
    id: ConnectionId,
    result: Result<(), ErrorView>,
) -> (Seq<ConnectionView>, ActionView) {
    match result {
        Ok(_) => (hub, ActionView::Receive),
        Err(e) => (hub::left(hub, session, id), ActionView::Finish(Some(e))),
    }
}

/// What an event in the life of the connection `id` leads to.
pub open spec fn handled(
    hub: Seq<ConnectionView>,
    session: Seq<char>,
    id: ConnectionId,
    event: EventView,
) -> (Seq<ConnectionView>, ActionView) {
    match event {
        EventView::IceServers(servers) => (
            hub,
            ActionView::Greet(
                OutgoingView { to: id, packet: Some(WhichView::Hello(servers)) },
            ),
        ),
        EventView::Greeted(Ok(_)) => (hub, ActionView::Forward),
        EventView::Greeted(Err(text)) => (
            hub::left(hub, session, id),
            ActionView::Finish(Some(ErrorView::Send(text))),
        ),
        EventView::Forwarding => (hub, ActionView::Receive),
        EventView::Received(message) => {
            let (after, step) = message_handled(hub, session, id, message);
            match step.outgoing {
                Some(outgoing) => (
                    after,
                    ActionView::Deliver { outgoing, outcome: step.outcome },
                ),
                None => continued(after, session, id, step.outcome.result),
            }
        },
        EventView::SocketFailed => (
            hub::left(hub, session, id),
            ActionView::Finish(None),
        ),
        EventView::SocketEnded => (
            hub::left(hub, session, id),
            ActionView::Finish(None),
        ),
        EventView::Delivered { outcome, delivery } => continued(
            hub,
            session,
            id,
            handlers::settled(outcome, delivery),
        ),
    }
}

fn proceed(
    connection: ConnectionId,
    hub: &mut MatchmakingHub,
    session_id: &str,
    result: Result<(), HandlerError>,
) -> (r: Action)
    ensures
        (final(hub)@, r@) == continued(
            old(hub)@,
            session_id@,
            connection,
            handlers::result_view(result),
        ),
{
    match result {
        Ok(_) => Action::Receive,
        Err(e) => {
            hub.remove_connection(session_id, connection);
            Action::Finish(Some(e))
        },
    }
}

/// Leads a client that was let in through its connection: says what to do next after each event
/// in its life. The client is greeted, then served message by message, until the first error or
/// the end of the socket, and leaves the hub.
pub fn handle(
    connection: ConnectionId,
    hub: &mut MatchmakingHub,
    session_id: &str,
    event: Event,
) -> (r: Action)
    ensures
        (final(hub)@, r@) == handled(old(hub)@, session_id@, connection, event@),
        event matches Event::IceServers(servers) ==> {
            &&& r matches Action::Greet(outgoing)
            &&& outgoing.to == connection
            &&& outgoing.packet.which matches Some(Which::Hello(hello))
            &&& hello.ice_servers@.len() == servers@.len()
            &&& forall|i: int|
                0 <= i < servers@.len() ==> same_server(
                    #[trigger] hello.ice_servers@[i],
                    servers@[i],
                )
        },
{
    match event {
        Event::IceServers(servers) => Action::Greet(
            send_hello_packet(connection, servers.as_slice()),
        ),
        Event::Greeted(Ok(_)) => Action::Forward,
        Event::Greeted(Err(text)) => {
            hub.remove_connection(session_id, connection);
            Action::Finish(Some(HandlerError::Send(text)))
        },
        Event::Forwarding => Action::Receive,
        Event::Received(message) => {
            let step = handle_ws_message(connection, hub, session_id, message);
            match step.outgoing {
                Some(outgoing) => Action::Deliver { outgoing, outcome: step.outcome },
                None => proceed(connection, hub, session_id, step.outcome.result),
            }
        },
        Event::SocketFailed => {
            hub.remove_connection(session_id, connection);
            Action::Finish(None)
        },
        Event::SocketEnded => {
            hub.remove_connection(session_id, connection);
            Action::Finish(None)
        },
        Event::Delivered { outcome, delivery } => proceed(
            connection,
            hub,
            session_id,
            outcome.settle(delivery),
        ),
    }
}

/// What a connection's channel carries to its socket.
#[derive(Debug, PartialEq, Eq)]
pub enum OutgoingMessage {
    /// An encoded packet.
    Binary(Vec<u8>),
    /// The end of the exchange.
    Close,
}

/// What has happened while a channel is forwarded to its socket.
#[derive(Debug, PartialEq, Eq)]
pub enum ForwardEvent {
    /// The channel has yielded a message.
    Queued(OutgoingMessage),
    /// Nobody can put anything into the channel any more.
    QueueClosed,
    /// The socket has taken the bytes.
    Sent,
    /// The socket has refused the bytes.
    Refused,
}

/// What to do next while a channel is forwarded to its socket.
#[derive(Debug, PartialEq, Eq)]
pub enum ForwardAction {
    /// Send these bytes over the socket.
    Transmit(Vec<u8>),
    /// Send a close frame, then stop.
    CloseSocket,
    /// Wait for the channel.
    Await,
    /// Stop.
    Stop,
}

/// What an event in the forwarding of a channel leads to.
pub open spec fn forwarded(event: ForwardEvent) -> ForwardAction {
    match event {
        ForwardEvent::Queued(OutgoingMessage::Binary(data)) => ForwardAction::Transmit(data),
        ForwardEvent::Queued(OutgoingMessage::Close) => ForwardAction::CloseSocket,
        ForwardEvent::QueueClosed => ForwardAction::Stop,
        ForwardEvent::Sent => ForwardAction::Await,
        ForwardEvent::Refused => ForwardAction::Stop,
    }
}

/// Leads the forwarding of a channel to its socket: every packet in turn, until the channel
/// holds the order to close, or nobody writes to it, or the socket fails.
pub fn forward(event: ForwardEvent) -> (r: ForwardAction)
    ensures
        r == forwarded(event),
        r == match event {
            ForwardEvent::Queued(OutgoingMessage::Binary(data)) => ForwardAction::Transmit(data),
            ForwardEvent::Queued(OutgoingMessage::Close) => ForwardAction::CloseSocket,
            ForwardEvent::QueueClosed => ForwardAction::Stop,
            ForwardEvent::Sent => ForwardAction::Await,
            ForwardEvent::Refused => ForwardAction::Stop,
        },
{
    match event {
        ForwardEvent::Queued(OutgoingMessage::Binary(data)) => ForwardAction::Transmit(data),
        ForwardEvent::Queued(OutgoingMessage::Close) => ForwardAction::CloseSocket,
        ForwardEvent::QueueClosed => ForwardAction::Stop,
        ForwardEvent::Sent => ForwardAction::Await,
        ForwardEvent::Refused => ForwardAction::Stop,
    }
}

/// The model of a list of ICE servers.
pub open spec fn ice_servers_view(servers: Seq<IceServer>) -> Seq<IceServerView> {
    servers.map_values(|s: IceServer| s@)
}

fn clone_texts(texts: &Vec<String>) -> (r: Vec<String>)
    ensures
        pb::texts(r@) == pb::texts(texts@),
        r@.len() == texts@.len(),
        forall|k: int| 0 <= k < texts@.len() ==> (#[trigger] r@[k])@ == texts@[k]@,
{
    let mut r: Vec<String> = Vec::new();
    for i in 0..texts.len()
        invariant
            r.len() == i,
            forall|k: int| 0 <= k < i ==> #[trigger] r@[k]@ == texts@[k]@,
    {
        r.push(texts[i].clone());
    }
    assert(pb::texts(r@) =~= pb::texts(texts@));
    r
}

/// Whether two optional strings hold the same text, or are both absent.
pub open spec fn same_optional_text(a: Option<String>, b: Option<String>) -> bool {
    match (a, b) {
        (Some(x), Some(y)) => x@ == y@,
        (None, None) => true,
        _ => false,
    }
}

/// Whether the server that a greeting lists is the one that was found: the same addresses in the
/// same order, and the same credentials.
pub open spec fn same_server(listed: pb::IceServer, found: IceServer) -> bool {
    &&& listed.urls@.len() == found.urls@.len()
    &&& forall|j: int| 0 <= j < found.urls@.len() ==> (#[trigger] listed.urls@[j])@ == found.urls@[j]@
    &&& same_optional_text(listed.username, found.username)
    &&& same_optional_text(listed.credential, found.credential)
}

/// Greets a connection with the ICE servers that it is to use.
pub fn send_hello_packet(connection: ConnectionId, ice_servers: &[IceServer]) -> (r: Outgoing)
    ensures
        r@ == (OutgoingView {
            to: connection,
            packet: Some(WhichView::Hello(ice_servers_view(ice_servers@))),
        }),
        r.to == connection,
        r.packet.which matches Some(Which::Hello(hello)) && {
            &&& hello.ice_servers@.len() == ice_servers@.len()
            &&& forall|i: int|
                0 <= i < ice_servers@.len() ==> same_server(
                    #[trigger] hello.ice_servers@[i],
                    ice_servers@[i],
                )
        },
{
    let mut list: Vec<pb::IceServer> = Vec::new();
    for i in 0..ice_servers.len()
        invariant
            list.len() == i,
            forall|k: int| 0 <= k < i ==> #[trigger] list@[k]@ == ice_servers@[k]@,
            forall|k: int| 0 <= k < i ==> same_server(#[trigger] list@[k], ice_servers@[k]),
    {
        let s = &ice_servers[i];
        list.push(
            pb::IceServer {
                urls: clone_texts(&s.urls),
                username: clone_text(&s.username),
                credential: clone_text(&s.credential),
            },
        );
    }
    let hello = pb::Hello { ice_servers: list };
    assert(hello@ =~= ice_servers_view(ice_servers@));
    Outgoing { to: connection, packet: Packet { which: Some(Which::Hello(hello)) } }
}

/// Hands a connection the offer that it is to answer.
pub fn send_offer_packet(connection: ConnectionId, sdp: &str) -> (r: Outgoing)
    ensures
        r@ == (OutgoingView { to: connection, packet: Some(WhichView::Offer(sdp@)) }),
        r.to == connection,
        r.packet.which matches Some(Which::Offer(sent)) && sent.sdp@ == sdp@,
{
    let offer = pb::Offer { sdp: sdp.to_owned() };
    Outgoing { to: connection, packet: Packet { which: Some(Which::Offer(offer)) } }
}

/// Hands a connection the answer to its offer.
pub fn send_answer_packet(connection: ConnectionId, sdp: &str) -> (r: Outgoing)
    ensures
        r@ == (OutgoingView { to: connection, packet: Some(WhichView::Answer(sdp@)) }),
        r.to == connection,
        r.packet.which matches Some(Which::Answer(sent)) && sent.sdp@ == sdp@,
{
    let answer = pb::Answer { sdp: sdp.to_owned() };
    Outgoing { to: connection, packet: Packet { which: Some(Which::Answer(answer)) } }
}

/// Shows a connection that the server is alive.
pub fn send_ping_packet(connection: ConnectionId) -> (r: Outgoing)
    ensures
        r@ == (OutgoingView { to: connection, packet: Some(WhichView::Ping) }),
        r.to == connection,
        r.packet.which matches Some(Which::Ping(_)),
{
    Outgoing { to: connection, packet: Packet { which: Some(Which::Ping(pb::Ping {  })) } }
}

/// Hands a connection an ICE candidate of its peer.
pub fn send_ice_candidate_packet(connection: ConnectionId, candidate: &str) -> (r: Outgoing)
    ensures
        r@ == (OutgoingView {
            to: connection,
            packet: Some(WhichView::IceCandidate(candidate@)),
        }),
        r.to == connection,
        r.packet.which matches Some(Which::IceCandidate(sent)) && sent.candidate@ == candidate@,
{
    let candidate = pb::IceCandidate { candidate: candidate.to_owned() };
    Outgoing { to: connection, packet: Packet { which: Some(Which::IceCandidate(candidate)) } }
}

/// Tells a connection, by a number, why the exchange ends.
pub fn send_abort_packet(connection: ConnectionId, reason: i32) -> (r: Outgoing)
    ensures
        r@ == (OutgoingView {
            to: connection,
            packet: Some(WhichView::Abort(AbortReason::Code(reason))),
        }),
        r.to == connection,
        r.packet.which matches Some(Which::Abort(sent)) && sent.reason == AbortReason::Code(reason),
{
    let abort = pb::Abort { reason: AbortReason::Code(reason) };
    Outgoing { to: connection, packet: Packet { which: Some(Which::Abort(abort)) } }
}

/// The models of a list of ICE servers, of messages and of refusals hold what these hold.
pub proof fn law_message_models_are_faithful(
    servers: Seq<IceServer>,
    message: WsMessage,
    refusal: Refusal,
)
    ensures
        ice_servers_view(servers).len() == servers.len(),
        forall|i: int|
            0 <= i < servers.len() ==> #[trigger] ice_servers_view(servers)[i] == servers[i]@,
        message@ == match message {
            WsMessage::Binary(Ok(packet)) => WsMessageView::Binary(Ok(packet@)),
            WsMessage::Binary(Err(text)) => WsMessageView::Binary(Err(text@)),
            WsMessage::Close => WsMessageView::Close,
            WsMessage::Other => WsMessageView::Other,
        },
        refusal@.reason == refusal.reason,
        refusal@.packet == refusal.packet@,
{
}

/// The models of events hold what the events hold.
pub proof fn law_event_models_are_faithful(event: Event)
    ensures
        match event {
            Event::IceServers(servers) => {
                &&& event@ matches EventView::IceServers(list)
                &&& list.len() == servers@.len()
                &&& forall|i: int| 0 <= i < list.len() ==> #[trigger] list[i] == servers@[i]@
            },
            Event::Greeted(Ok(_)) => event@ == EventView::Greeted(Ok(())),
            Event::Greeted(Err(text)) => event@ == EventView::Greeted(Err(text@)),
            Event::Forwarding => event@ is Forwarding,
            Event::Received(message) => event@ == EventView::Received(message@),
            Event::SocketFailed => event@ is SocketFailed,
            Event::SocketEnded => event@ is SocketEnded,
            Event::Delivered { outcome, delivery: Ok(_) } => event@ == EventView::Delivered {
                outcome: outcome@,
                delivery: Ok(()),
            },
            Event::Delivered { outcome, delivery: Err(text) } => event@ == EventView::Delivered {
                outcome: outcome@,
                delivery: Err(text@),
            },
        },
{
}

/// The models of actions hold what the actions hold.
pub proof fn law_action_models_are_faithful(action: Action)
    ensures
        match action {
            Action::Greet(outgoing) => action@ == ActionView::Greet(outgoing@),
            Action::Forward => action@ is Forward,
            Action::Receive => action@ is Receive,
            Action::Deliver { outgoing, outcome } => action@ == ActionView::Deliver {
                outgoing: outgoing@,
                outcome: outcome@,
            },
            Action::Finish(Some(e)) => action@ == ActionView::Finish(Some(e@)),
            Action::Finish(None) => action@ == ActionView::Finish(None),
        },
{
}

} // verus!
