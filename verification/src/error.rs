//! The errors a request can meet, and the text the client is shown for
//! each of them.

use vstd::prelude::*;

use crate::outside::int_text;
use crate::types::{PassView, WSMessagePass};

verus! {

/// Why a request, or the serialisation of a response, failed.
#[derive(Debug)]
pub enum Error {
    ServerSerialization(String),
    LobbyDoesNotExist { id: String },
    PeerDoesNotExist { id: i64 },
    LobbiesDoNotMatch { sender_lobby_id: String, dest_lobby_id: String },
    NoLobby { peer_id: i64 },
    /// The lobby's channel refused the message, which it handed back; shown
    /// with the text tokio gives a refused send, "channel closed".
    ChannelSendError(WSMessagePass),
}

/// View of an [`Error`].
pub enum ErrorView {
    ServerSerialization { detail: Seq<char> },
    LobbyDoesNotExist { id: Seq<char> },
    PeerDoesNotExist { id: i64 },
    LobbiesDoNotMatch { sender_lobby_id: Seq<char>, dest_lobby_id: Seq<char> },
    NoLobby { peer_id: i64 },
    ChannelSendError { refused: PassView },
}

impl View for Error {
    type V = ErrorView;

    open spec fn view(&self) -> ErrorView {
        match self {
            Error::ServerSerialization(detail) => ErrorView::ServerSerialization { detail: detail@ },
            Error::LobbyDoesNotExist { id } => ErrorView::LobbyDoesNotExist { id: id@ },
            Error::PeerDoesNotExist { id } => ErrorView::PeerDoesNotExist { id: *id },
            Error::LobbiesDoNotMatch { sender_lobby_id, dest_lobby_id } =>
                ErrorView::LobbiesDoNotMatch {
                    sender_lobby_id: sender_lobby_id@,
                    dest_lobby_id: dest_lobby_id@,
                },
            Error::NoLobby { peer_id } => ErrorView::NoLobby { peer_id: *peer_id },
            Error::ChannelSendError(refused) => ErrorView::ChannelSendError { refused: refused@ },
        }
    }
}

/// The character of a decimal digit.
pub open spec fn digit_char(d: nat) -> char
    recommends
        d < 10,
{
    (d + 48) as char
}

/// The decimal digits of a natural number, most significant first.
pub open spec fn decimal_digits(n: nat) -> Seq<char>
    decreases n,
{
    if n < 10 {
        seq![digit_char(n)]
    } else {
        decimal_digits(n / 10).push(digit_char(n % 10))
    }
}

/// An integer written in decimal, with a leading `-` when negative.
pub open spec fn decimal(n: int) -> Seq<char> {
    if n < 0 {
        seq!['-'] + decimal_digits((-n) as nat)
    } else {
        decimal_digits(n as nat)
    }
}

/// The text shown for an error.
pub open spec fn error_message(e: ErrorView) -> Seq<char> {
    match e {
        ErrorView::ServerSerialization { detail } => "couldn't serialize json for response: "@
            + detail,
        ErrorView::LobbyDoesNotExist { id } => "the lobby with the id of "@ + id
            + " to join doesn't exist"@,
        ErrorView::PeerDoesNotExist { id } => "the player with the id of "@ + decimal(id as int)
            + " doesn't exist"@,
        ErrorView::LobbiesDoNotMatch { sender_lobby_id, dest_lobby_id } =>
            "the player that you tried to relay to isn't in the lobby with the id of "@
                + sender_lobby_id + ", it's in "@ + dest_lobby_id,
        ErrorView::NoLobby { peer_id } => "the peer with the id of "@ + decimal(peer_id as int)
            + " has no lobby"@,
        ErrorView::ChannelSendError { .. } => "channel error: channel closed"@,
    }
}

impl Error {
    /// The text of the error, as the client is shown it.
    pub fn to_message(&self) -> (text: String)
        ensures
            text@ == error_message(self@),
    {
        let mut text = String::new();
        match self {
            Error::ServerSerialization(detail) => {
                text.append("couldn't serialize json for response: ");
                text.append(detail.as_str());
            },
            Error::LobbyDoesNotExist { id } => {
                text.append("the lobby with the id of ");
                text.append(id.as_str());
                text.append(" to join doesn't exist");
            },
            Error::PeerDoesNotExist { id } => {
                text.append("the player with the id of ");
                let n = int_text(*id);
                text.append(n.as_str());
                text.append(" doesn't exist");
            },
            Error::LobbiesDoNotMatch { sender_lobby_id, dest_lobby_id } => {
                text.append(
                    "the player that you tried to relay to isn't in the lobby with the id of ",
                );
                text.append(sender_lobby_id.as_str());
                text.append(", it's in ");
                text.append(dest_lobby_id.as_str());
            },
            Error::NoLobby { peer_id } => {
                text.append("the peer with the id of ");
                let n = int_text(*peer_id);
                text.append(n.as_str());
                text.append(" has no lobby");
            },
            Error::ChannelSendError(_) => {
                text.append("channel error: channel closed");
            },
        }
        assert(text@ =~= error_message(self@));
        text
    }
}

} // verus!
