//! The messages of the signalling protocol: what a client asks for, what
//! the server answers, and what travels between the tasks of a connection.
//! Each type has a view over mathematical strings (`Seq<char>`) in which
//! the contracts of the crate are written.

use vstd::prelude::*;

verus! {

/// Which lobby a `join` request is about: an existing one by its id, or a
/// new one that the server creates with the requester as host.
#[derive(Clone, Debug, PartialEq, Eq)]
pub enum LobbyId {
    Existing { id: String },
    Create { mesh: bool },
}

/// A request sent by a client.
#[derive(Clone, Debug, PartialEq, Eq)]
pub enum RequestType {
    Join { lobby_id: LobbyId },
    Relay { dest_id: i64, message: RelayMessage },
}

/// A WebRTC negotiation message that one peer relays to another.
#[derive(Clone, Debug, PartialEq, Eq)]
pub enum RelayMessage {
    Offer { offer: String },
    Answer { answer: String },
    Candidate { mid: String, index: i64, sdp: String },
}

/// A message the server sends to a client.
#[derive(Clone, Debug, PartialEq, Eq)]
pub enum ResponseType {
    Id { id: i64, lobby_id: String, mesh: bool },
    PeerConnect { id: i64 },
    PeerDisconnect { id: i64 },
    Relay { sender_id: i64, dest_id: i64, message: RelayMessage },
    Error { error: String },
}

/// A control frame handed to a connection's writer.
#[derive(Clone, Debug, PartialEq, Eq)]
pub enum ChannelCommunionMessage {
    Close { code: u16, reason: String },
}

/// What the tasks of a connection pass to its writer: a raw control frame,
/// or a protocol message to be serialised.
#[derive(Clone, Debug, PartialEq, Eq)]
pub enum WSMessagePass {
    Raw(ChannelCommunionMessage),
    Typed(ResponseType),
}

/// View of a [`RelayMessage`].
pub enum RelayView {
    Offer { offer: Seq<char> },
    Answer { answer: Seq<char> },
    Candidate { mid: Seq<char>, index: i64, sdp: Seq<char> },
}

/// View of a [`ResponseType`].
pub enum ResponseView {
    Id { id: i64, lobby_id: Seq<char>, mesh: bool },
    PeerConnect { id: i64 },
    PeerDisconnect { id: i64 },
    Relay { sender_id: i64, dest_id: i64, message: RelayView },
    Error { error: Seq<char> },
}

/// View of a [`WSMessagePass`]; a raw frame is always a close frame.
pub enum PassView {
    Close { code: u16, reason: Seq<char> },
    Typed(ResponseView),
}

impl View for RelayMessage {
    type V = RelayView;

    open spec fn view(&self) -> RelayView {
        match self {
            RelayMessage::Offer { offer } => RelayView::Offer { offer: offer@ },
            RelayMessage::Answer { answer } => RelayView::Answer { answer: answer@ },
            RelayMessage::Candidate { mid, index, sdp } => RelayView::Candidate {
                mid: mid@,
                index: *index,
                sdp: sdp@,
            },
        }
    }
}

impl View for ResponseType {
    type V = ResponseView;

    open spec fn view(&self) -> ResponseView {
        match self {
            ResponseType::Id { id, lobby_id, mesh } => ResponseView::Id {
                id: *id,
                lobby_id: lobby_id@,
                mesh: *mesh,
            },
            ResponseType::PeerConnect { id } => ResponseView::PeerConnect { id: *id },
            ResponseType::PeerDisconnect { id } => ResponseView::PeerDisconnect { id: *id },
            ResponseType::Relay { sender_id, dest_id, message } => ResponseView::Relay {
                sender_id: *sender_id,
                dest_id: *dest_id,
                message: message@,
            },
            ResponseType::Error { error } => ResponseView::Error { error: error@ },
        }
    }
}

impl View for WSMessagePass {
    type V = PassView;

    open spec fn view(&self) -> PassView {
        match self {
            WSMessagePass::Raw(ChannelCommunionMessage::Close { code, reason }) => PassView::Close {
                code: *code,
                reason: reason@,
            },
            WSMessagePass::Typed(r) => PassView::Typed(r@),
        }
    }
}

impl From<ResponseType> for WSMessagePass {
    fn from(response: ResponseType) -> (pass: WSMessagePass) {
        WSMessagePass::Typed(response)
    }
}

impl vstd::std_specs::convert::FromSpecImpl<ResponseType> for WSMessagePass {
    open spec fn obeys_from_spec() -> bool {
        true
    }

    open spec fn from_spec(response: ResponseType) -> WSMessagePass {
        WSMessagePass::Typed(response)
    }
}

impl WSMessagePass {
    /// Whether handing this message to the client ends the connection:
    /// only a close frame does.
    pub fn closes_connection(&self) -> (closes: bool)
        ensures
            closes <==> self@ is Close,
    {
        match self {
            WSMessagePass::Raw(ChannelCommunionMessage::Close { .. }) => true,
            WSMessagePass::Typed(_) => false,
        }
    }
}

} // verus!
