//! The packets that clients and the server exchange.

use vstd::prelude::*;
use crate::text::text_view;

verus! {

/// Why a client is turned away.
#[derive(Debug, Clone, Copy, PartialEq, Eq, Structural)]
pub enum Reason {
    /// The client speaks an older protocol than the server matchmakes for.
    ProtocolVersionTooOld,
    /// The client speaks a newer protocol than the server matchmakes for.
    ProtocolVersionTooNew,
}

impl Reason {
    /// The name of the reason in the packet schema.
    pub open spec fn name(self) -> Seq<char> {
        match self {
            Reason::ProtocolVersionTooOld => "REASON_PROTOCOL_VERSION_TOO_OLD"@,
            Reason::ProtocolVersionTooNew => "REASON_PROTOCOL_VERSION_TOO_NEW"@,
        }
    }

    /// The name of the reason in the packet schema.
    pub fn as_str_name(&self) -> (r: &'static str)
        ensures
            r@ == self.name(),
            r@ == match *self {
                Reason::ProtocolVersionTooOld => "REASON_PROTOCOL_VERSION_TOO_OLD"@,
                Reason::ProtocolVersionTooNew => "REASON_PROTOCOL_VERSION_TOO_NEW"@,
            },
    {
        match self {
            Reason::ProtocolVersionTooOld => "REASON_PROTOCOL_VERSION_TOO_OLD",
            Reason::ProtocolVersionTooNew => "REASON_PROTOCOL_VERSION_TOO_NEW",
        }
    }
}

/// The reason field of an [`Abort`]: a reason that the schema names, or a bare number.
#[derive(Debug, Clone, Copy, PartialEq, Eq, Structural)]
pub enum AbortReason {
    Named(Reason),
    Code(i32),
}

/// A STUN or TURN server, as a [`Hello`] lists it.
#[derive(Debug, Clone, PartialEq, Eq)]
pub struct IceServer {
    pub urls: Vec<String>,
    pub username: Option<String>,
    pub credential: Option<String>,
}

/// The first packet that an accepted client receives.
#[derive(Debug, Clone, PartialEq, Eq)]
pub struct Hello {
    pub ice_servers: Vec<IceServer>,
}

/// A client asks to be matched with the other client of its session.
#[derive(Debug, Clone, PartialEq, Eq)]
pub struct Start {
    pub offer_sdp: String,
    /// The identity that the client keeps across reconnections, encoded as text. `None` where
    /// it states none.
    pub connection_id: Option<String>,
}

/// The offerer's session description, on its way to the answerer.
#[derive(Debug, Clone, PartialEq, Eq)]
pub struct Offer {
    pub sdp: String,
}

/// The answerer's session description, on its way to the offerer.
#[derive(Debug, Clone, PartialEq, Eq)]
pub struct Answer {
    pub sdp: String,
}

/// The server ends the exchange.
#[derive(Debug, Clone, PartialEq, Eq)]
pub struct Abort {
    pub reason: AbortReason,
}

/// A sign of life.
#[derive(Debug, Clone, PartialEq, Eq)]
pub struct Ping {}

/// A trickled ICE candidate, on its way to the peer.
#[derive(Debug, Clone, PartialEq, Eq)]
pub struct IceCandidate {
    pub candidate: String,
}

/// The content of a packet.
#[derive(Debug, Clone, PartialEq, Eq)]
pub enum Which {
    Start(Start),
    Offer(Offer),
    Answer(Answer),
    Abort(Abort),
    Ping(Ping),
    Hello(Hello),
    IceCandidate(IceCandidate),
}

/// A packet. Its content is absent where the sender set none that this server knows.
#[derive(Debug, Clone, PartialEq, Eq)]
pub struct Packet {
    pub which: Option<Which>,
}

/// The model of an ICE server.
#[verifier::ext_equal]
pub struct IceServerView {
    pub urls: Seq<Seq<char>>,
    pub username: Option<Seq<char>>,
    pub credential: Option<Seq<char>>,
}

/// The model of a [`Start`].
#[verifier::ext_equal]
pub struct StartView {
    pub offer_sdp: Seq<char>,
    pub connection_id: Option<Seq<char>>,
}

/// The model of a packet's content.
#[verifier::ext_equal]
pub enum WhichView {
    Start(StartView),
    Offer(Seq<char>),
    Answer(Seq<char>),
    Abort(AbortReason),
    Ping,
    Hello(Seq<IceServerView>),
    IceCandidate(Seq<char>),
}

/// The texts in a vector of strings.
pub open spec fn texts(v: Seq<String>) -> Seq<Seq<char>> {
    v.map_values(|s: String| s@)
}

impl View for IceServer {
    type V = IceServerView;

    open spec fn view(&self) -> IceServerView {
        IceServerView {
            urls: texts(self.urls@),
            username: text_view(self.username),
            credential: text_view(self.credential),
        }
    }
}

impl View for Hello {
    type V = Seq<IceServerView>;

    open spec fn view(&self) -> Seq<IceServerView> {
        self.ice_servers@.map_values(|s: IceServer| s@)
    }
}

impl View for Start {
    type V = StartView;

    open spec fn view(&self) -> StartView {
        StartView {
            offer_sdp: self.offer_sdp@,
            connection_id: text_view(self.connection_id),
        }
    }
}

impl View for Which {
    type V = WhichView;

    open spec fn view(&self) -> WhichView {
        match self {
            Which::Start(start) => WhichView::Start(start@),
            Which::Offer(offer) => WhichView::Offer(offer.sdp@),
            Which::Answer(answer) => WhichView::Answer(answer.sdp@),
            Which::Abort(abort) => WhichView::Abort(abort.reason),
            Which::Ping(_) => WhichView::Ping,
            Which::Hello(hello) => WhichView::Hello(hello@),
            Which::IceCandidate(c) => WhichView::IceCandidate(c.candidate@),
        }
    }
}

impl View for Packet {
    type V = Option<WhichView>;

    open spec fn view(&self) -> Option<WhichView> {
        match self.which {
            Some(which) => Some(which@),
            None => None,
        }
    }
}

/// Whether a packet is one that only the server may send.
pub open spec fn server_only(packet: Option<WhichView>) -> bool {
    match packet {
        Some(WhichView::Hello(_)) => true,
        Some(WhichView::Offer(_)) => true,
        Some(WhichView::Abort(_)) => true,
        _ => false,
    }
}

impl Packet {
    /// Whether the packet is one that only the server may send: a greeting, an offer on its way
    /// to the answerer, or an abort.
    pub fn is_server_only(&self) -> (r: bool)
        ensures
            r == server_only(self@),
            r <==> self.which is Some && (self.which->0 is Hello || self.which->0 is Offer
                || self.which->0 is Abort),
    {
        match &self.which {
            Some(Which::Hello(_)) => true,
            Some(Which::Offer(_)) => true,
            Some(Which::Abort(_)) => true,
            _ => false,
        }
    }
}

/// The model of an optional text holds that text.
pub proof fn law_text_models_are_faithful(text: Option<String>)
    ensures
        match text {
            Some(s) => text_view(text) == Some(s@),
            None => text_view(text) is None,
        },
{
}

/// The model of an ICE server holds its addresses, in order, and its credentials.
pub proof fn law_server_models_are_faithful(server: IceServer)
    ensures
        server@.urls.len() == server.urls@.len(),
        forall|j: int|
            0 <= j < server.urls@.len() ==> #[trigger] server@.urls[j] == server.urls@[j]@,
        match server.username {
            Some(s) => server@.username == Some(s@),
            None => server@.username is None,
        },
        match server.credential {
            Some(s) => server@.credential == Some(s@),
            None => server@.credential is None,
        },
{
}

/// The model of a packet holds what the packet holds, text for text.
pub proof fn law_packet_models_are_faithful(packet: Packet)
    ensures
        match packet.which {
            None => packet@ is None,
            Some(Which::Start(start)) => {
                &&& packet@ matches Some(WhichView::Start(v))
                &&& v.offer_sdp == start.offer_sdp@
                &&& match start.connection_id {
                    Some(s) => v.connection_id == Some(s@),
                    None => v.connection_id is None,
                }
            },
            Some(Which::Offer(offer)) => packet@ == Some(WhichView::Offer(offer.sdp@)),
            Some(Which::Answer(answer)) => packet@ == Some(WhichView::Answer(answer.sdp@)),
            Some(Which::Abort(abort)) => packet@ == Some(WhichView::Abort(abort.reason)),
            Some(Which::Ping(_)) => packet@ == Some(WhichView::Ping),
            Some(Which::Hello(hello)) => {
                &&& packet@ matches Some(WhichView::Hello(listed))
                &&& listed.len() == hello.ice_servers@.len()
                &&& forall|i: int|
                    0 <= i < listed.len() ==> #[trigger] listed[i] == hello.ice_servers@[i]@
            },
            Some(Which::IceCandidate(c)) => packet@ == Some(WhichView::IceCandidate(c.candidate@)),
        },
{
}

/// Only a greeting, an offer and an abort are for the server alone to send.
pub proof fn law_server_only_packets(packet: Option<WhichView>)
    ensures
        server_only(packet) <==> packet is Some && (packet->0 is Hello || packet->0 is Offer
            || packet->0 is Abort),
{
}

} // verus!
