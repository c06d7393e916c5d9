//! What the server keeps of each client.

use vstd::prelude::*;
use crate::pb::{texts, IceServerView};
use crate::text::text_view;

verus! {

/// The identity of a connection: the number of a UUID.
#[derive(Debug, Clone, Copy, PartialEq, Eq, Structural)]
pub struct ConnectionId {
    pub value: u128,
}

/// A STUN or TURN server that clients are told to use.
#[derive(Debug, Clone, PartialEq, Eq)]
pub struct IceServer {
    pub urls: Vec<String>,
    pub username: Option<String>,
    pub credential: Option<String>,
}

impl View for IceServer {
    type V = IceServerView;

    open spec fn view(&self) -> IceServerView {
        IceServerView {
            urls: texts(self.urls@),
            username: text_view(self.username),
            credential: text_view(self.credential),
        }
    }
}

/// The state of a connection within its session.
#[derive(Debug, Clone, PartialEq, Eq)]
pub struct SessionAttachment {
    pub session_id: String,
    pub protocol_version: Option<u32>,
    /// The offer that waits for an answerer, if this connection is the offerer.
    pub offer_sdp: Option<String>,
    /// The identity that the client stated with its offer.
    pub connection_id: Option<String>,
    /// The connection that this one is paired with.
    pub peer_id: Option<ConnectionId>,
}

/// The model of a [`SessionAttachment`].
#[verifier::ext_equal]
pub struct AttachmentView {
    pub session_id: Seq<char>,
    pub protocol_version: Option<u32>,
    pub offer_sdp: Option<Seq<char>>,
    pub connection_id: Option<Seq<char>>,
    pub peer_id: Option<ConnectionId>,
}

impl View for SessionAttachment {
    type V = AttachmentView;

    open spec fn view(&self) -> AttachmentView {
        AttachmentView {
            session_id: self.session_id@,
            protocol_version: self.protocol_version,
            offer_sdp: text_view(self.offer_sdp),
            connection_id: text_view(self.connection_id),
            peer_id: self.peer_id,
        }
    }
}

/// The state of a connection that has just entered a session: it has advertised
/// `protocol_version`, offers nothing and is paired with nobody.
pub open spec fn new_attachment(
    session_id: Seq<char>,
    protocol_version: Option<u32>,
) -> AttachmentView {
    AttachmentView {
        session_id,
        protocol_version,
        offer_sdp: None,
        connection_id: None,
        peer_id: None,
    }
}

impl SessionAttachment {
    /// The state of a connection that has just entered a session.
    pub fn new(session_id: String) -> (r: Self)
        ensures
            r@ == new_attachment(session_id@, None),
            r.session_id == session_id,
            r.protocol_version is None,
            r.offer_sdp is None && r.connection_id is None && r.peer_id is None,
    {
        SessionAttachment {
            session_id,
            protocol_version: None,
            offer_sdp: None,
            connection_id: None,
            peer_id: None,
        }
    }
}

/// The model of an ICE server holds its addresses, in order, and its credentials.
pub proof fn law_server_models_are_faithful(server: IceServer)
    ensures
        server@.urls.len() == server.urls@.len(),
        forall|j: int|
            0 <= j < server.urls@.len() ==> #[trigger] server@.urls[j] == server.urls@[j]@,
        match server.username {
            Some(s) => server@.username == Some(s@),
            None => server@.username is None,
        },
        match server.credential {
            Some(s) => server@.credential == Some(s@),
            None => server@.credential is None,
        },
{
}

/// The model of a connection's state holds that state, field for field.
pub proof fn law_attachment_models_are_faithful(attachment: SessionAttachment)
    ensures
        attachment@.session_id == attachment.session_id@,
        attachment@.protocol_version == attachment.protocol_version,
        match attachment.offer_sdp {
            Some(s) => attachment@.offer_sdp == Some(s@),
            None => attachment@.offer_sdp is None,
        },
        match attachment.connection_id {
            Some(s) => attachment@.connection_id == Some(s@),
            None => attachment@.connection_id is None,
        },
        attachment@.peer_id == attachment.peer_id,
{
}

} // verus!
