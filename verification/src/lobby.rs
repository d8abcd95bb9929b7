//! Peers and lobbies. A lobby owns a broadcast channel through which its
//! members hear about each other; it keeps, as ghost state, the log of the
//! messages that the channel accepted.

use vstd::prelude::*;
use vstd::std_specs::cmp::PartialEqSpecImpl;

use crate::outside::{accepted_messages, channel_capacity, ever_subscribed, LobbyChannel};
use crate::types::{PassView, WSMessagePass};

verus! {

/// How many messages a lobby's channel buffers for a slow subscriber.
pub const CHANNEL_CAPACITY: usize = 100;

/// A connected client and the lobby it last asked to join.
#[derive(Clone, Debug)]
pub struct Peer {
    pub id: i64,
    pub lobby: Option<String>,
}

/// View of a [`Peer`].
pub struct PeerView {
    pub id: i64,
    pub lobby: Option<Seq<char>>,
}

impl View for Peer {
    type V = PeerView;

    open spec fn view(&self) -> PeerView {
        PeerView {
            id: self.id,
            lobby: match self.lobby {
                Some(l) => Some(l@),
                None => None,
            },
        }
    }
}

/// A lobby: its id, whether its peers form a mesh, the ids of the peers
/// that joined it (in order of joining), its host, and the channel on
/// which its members are told of each other.
#[derive(Debug)]
pub struct Lobby {
    pub id: String,
    pub mesh: bool,
    pub peers: Vec<i64>,
    pub host: i64,
    pub channel: LobbyChannel,
    /// How many messages were handed to the channel, accepted or not
    /// (stopping at `u64::MAX`); [`Lobby::broadcast`] counts them.
    pub send_attempts: u64,
}

/// View of a [`Lobby`]: its fields, and of its channel the messages it
/// accepted (oldest first), its capacity, and whether anyone ever
/// subscribed to it.
pub struct LobbyView {
    pub id: Seq<char>,
    pub mesh: bool,
    pub peers: Seq<i64>,
    pub host: i64,
    pub broadcasts: Seq<PassView>,
    pub capacity: nat,
    pub subscribed: bool,
}

impl View for Lobby {
    type V = LobbyView;

    open spec fn view(&self) -> LobbyView {
        LobbyView {
            id: self.id@,
            mesh: self.mesh,
            peers: self.peers@,
            host: self.host,
            broadcasts: accepted_messages(self.channel),
            capacity: channel_capacity(self.channel),
            subscribed: ever_subscribed(self.channel),
        }
    }
}

impl LobbyView {
    /// The lobby after its channel accepted `message`.
    pub open spec fn with_broadcast(self, message: PassView) -> LobbyView {
        LobbyView { broadcasts: self.broadcasts.push(message), ..self }
    }

    /// The lobby after someone subscribed to its channel.
    pub open spec fn with_subscriber(self) -> LobbyView {
        LobbyView { subscribed: true, ..self }
    }

    /// A lobby just created: no message accepted, nobody subscribed, and a
    /// channel of [`CHANNEL_CAPACITY`].
    pub open spec fn fresh(id: Seq<char>, host: i64, mesh: bool, peers: Seq<i64>) -> LobbyView {
        LobbyView {
            id,
            mesh,
            peers,
            host,
            broadcasts: Seq::empty(),
            capacity: CHANNEL_CAPACITY as nat,
            subscribed: false,
        }
    }
}

/// A count after one more event: one more, stopping at `u64::MAX`.
pub open spec fn next_count(n: u64) -> u64 {
    if n < u64::MAX {
        (n + 1) as u64
    } else {
        n
    }
}

impl Lobby {
    /// A lobby with a fresh channel that nobody has subscribed to yet.
    pub fn new(id: String, host: i64, mesh: bool, peers: Vec<i64>) -> (lobby: Lobby)
        ensures
            lobby@ == LobbyView::fresh(id@, host, mesh, peers@),
            lobby.sends() == 0,
    {
        let channel = LobbyChannel::open(CHANNEL_CAPACITY);
        Lobby { id, host, mesh, peers, channel, send_attempts: 0 }
    }

    /// How many messages were handed to the lobby's channel.
    pub open spec fn sends(&self) -> u64 {
        self.send_attempts
    }

    /// Hands `message` to the lobby's channel. The channel accepts it when
    /// some receiver is subscribed and returns how many are; only then is
    /// the message added to the lobby's accepted messages. A channel that
    /// nobody ever subscribed to refuses it; a refusal hands the message
    /// back and leaves the view as it was. Either way the attempt is
    /// counted.
    /// For a channel that had subscriptions, acceptance rests on whether
    /// the tasks that hold the receivers still hold them.
    pub fn broadcast(&mut self, message: WSMessagePass) -> (r: Result<usize, WSMessagePass>)
        ensures
            r matches Ok(n) ==> n >= 1,
            r matches Err(refused) ==> refused == message,
            r is Ok ==> final(self)@ == old(self)@.with_broadcast(message@),
            r is Err ==> final(self)@ == old(self)@,
            !old(self)@.subscribed ==> r is Err,
            final(self).sends() == next_count(old(self).sends()),
    {
        self.send_attempts = self.send_attempts.saturating_add(1);
        self.channel.send(message)
    }

    /// Subscribes a receiver to the lobby's channel.
    pub fn subscribe(&mut self) -> (receiver: tokio::sync::broadcast::Receiver<WSMessagePass>)
        ensures
            final(self)@ == old(self)@.with_subscriber(),
            final(self).sends() == old(self).sends(),
    {
        self.channel.subscribe()
    }
}

impl PartialEq for Lobby {
    fn eq(&self, other: &Self) -> (same: bool) {
        self.id == other.id
    }
}

impl PartialEqSpecImpl for Lobby {
    open spec fn obeys_eq_spec() -> bool {
        true
    }

    open spec fn eq_spec(&self, other: &Lobby) -> bool {
        self.id@ == other.id@
    }
}

impl Eq for Lobby {

}

} // verus!
