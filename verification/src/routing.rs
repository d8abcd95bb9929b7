//! How ids are shown to the members of a lobby, and which of a lobby's
//! broadcasts each member is handed.
//!
//! Inside a lobby the host is known as 1: the ids that a member sees are
//! aliased, and a relay addressed to 1 goes to the host.

use vstd::prelude::*;

use crate::lobby::{Lobby, LobbyView};
use crate::types::{PassView, ResponseType, ResponseView, WSMessagePass};

verus! {

/// Peers see the host of their lobby as 1, and everyone else as themselves.
pub open spec fn alias(id: i64, host: i64) -> i64 {
    if id == host {
        1
    } else {
        id
    }
}

/// The peer that a relay addressed to `dest_id` goes to: 1 names the host.
pub open spec fn target(dest_id: i64, host: i64) -> i64 {
    if dest_id == 1 {
        host
    } else {
        dest_id
    }
}

/// The message broadcast for a relay from `sender_id` to `dest_id` in a
/// lobby hosted by `host`, with ids as the members see them.
pub open spec fn relay_envelope(
    sender_id: i64,
    dest_id: i64,
    host: i64,
    message: crate::types::RelayView,
) -> PassView {
    PassView::Typed(
        ResponseView::Relay {
            sender_id: alias(sender_id, host),
            dest_id: target(dest_id, host),
            message,
        },
    )
}

/// What the member `peer_id` of a lobby hosted by `host` is handed of the
/// broadcast `message`: the arrivals and departures of others, with the
/// host shown as 1; the relays addressed to it; and close frames. Id and
/// error messages are never broadcast to a member, nor is news of its own
/// arrival or departure.
pub open spec fn forward(message: PassView, peer_id: i64, host: i64) -> Option<PassView> {
    match message {
        PassView::Typed(ResponseView::Id { .. }) => None,
        PassView::Typed(ResponseView::PeerConnect { id }) => if id != peer_id {
            Some(PassView::Typed(ResponseView::PeerConnect { id: alias(id, host) }))
        } else {
            None
        },
        PassView::Typed(ResponseView::PeerDisconnect { id }) => if id != peer_id {
            Some(PassView::Typed(ResponseView::PeerDisconnect { id: alias(id, host) }))
        } else {
            None
        },
        PassView::Typed(ResponseView::Relay { dest_id, .. }) => if dest_id == peer_id {
            Some(message)
        } else {
            None
        },
        PassView::Typed(ResponseView::Error { .. }) => None,
        PassView::Close { .. } => Some(message),
    }
}

/// The views of a sequence of messages.
pub open spec fn pass_views(s: Seq<WSMessagePass>) -> Seq<PassView> {
    s.map_values(|m: WSMessagePass| m@)
}

/// The announcements of the members of `peers` other than `peer_id`, in
/// order, as `peer_id` sees them.
pub open spec fn member_announcements(peers: Seq<i64>, peer_id: i64, host: i64) -> Seq<PassView>
    decreases peers.len(),
{
    if peers.len() == 0 {
        Seq::empty()
    } else {
        let earlier = member_announcements(peers.drop_last(), peer_id, host);
        if peers.last() != peer_id {
            earlier.push(PassView::Typed(ResponseView::PeerConnect { id: alias(peers.last(), host) }))
        } else {
            earlier
        }
    }
}

/// What a peer that has joined `lobby` under the id `lobby_id` is told:
/// its own id as the lobby sees it, the lobby's id and kind, then every
/// other member.
pub open spec fn welcome(lobby: LobbyView, lobby_id: Seq<char>, peer_id: i64) -> Seq<PassView> {
    seq![
        PassView::Typed(
            ResponseView::Id { id: alias(peer_id, lobby.host), lobby_id, mesh: lobby.mesh },
        ),
    ] + member_announcements(lobby.peers, peer_id, lobby.host)
}

/// The id under which the members of a lobby hosted by `host` see `id`.
pub fn public_id(id: i64, host: i64) -> (shown: i64)
    ensures
        shown == alias(id, host),
{
    if id == host {
        1
    } else {
        id
    }
}

/// The peer to which a relay addressed to `dest_id` goes, in a lobby
/// hosted by `host`.
pub fn relay_target(dest_id: i64, host: i64) -> (peer: i64)
    ensures
        peer == target(dest_id, host),
{
    if dest_id == 1 {
        host
    } else {
        dest_id
    }
}

/// What the member `peer_id` of a lobby hosted by `host` is handed of the
/// broadcast `message`, if anything.
pub fn filter_for_peer(message: WSMessagePass, peer_id: i64, host: i64) -> (handed: Option<
    WSMessagePass,
>)
    ensures
        match handed {
            Some(m) => forward(message@, peer_id, host) == Some(m@),
            None => forward(message@, peer_id, host) is None,
        },
{
    match message {
        WSMessagePass::Typed(ResponseType::Id { .. }) => None,
        WSMessagePass::Typed(ResponseType::PeerConnect { id }) => {
            if id != peer_id {
                Some(WSMessagePass::Typed(ResponseType::PeerConnect { id: public_id(id, host) }))
            } else {
                None
            }
        },
        WSMessagePass::Typed(ResponseType::PeerDisconnect { id }) => {
            if id != peer_id {
                Some(
                    WSMessagePass::Typed(ResponseType::PeerDisconnect { id: public_id(id, host) }),
                )
            } else {
                None
            }
        },
        WSMessagePass::Typed(ResponseType::Relay { sender_id, dest_id, message }) => {
            if dest_id == peer_id {
                Some(WSMessagePass::Typed(ResponseType::Relay { sender_id, dest_id, message }))
            } else {
                None
            }
        },
        WSMessagePass::Typed(ResponseType::Error { .. }) => None,
        WSMessagePass::Raw(frame) => Some(WSMessagePass::Raw(frame)),
    }
}

/// The messages of [`welcome`] for `peer_id`, which has joined `lobby`
/// under the id `lobby_id`.
pub fn welcome_messages(lobby: &Lobby, lobby_id: &String, peer_id: i64) -> (messages: Vec<
    WSMessagePass,
>)
    ensures
        pass_views(messages@) == welcome(lobby@, lobby_id@, peer_id),
{
    let host = lobby.host;
    let mut messages: Vec<WSMessagePass> = Vec::new();
    messages.push(
        WSMessagePass::Typed(
            ResponseType::Id {
                id: public_id(peer_id, host),
                lobby_id: lobby_id.clone(),
                mesh: lobby.mesh,
            },
        ),
    );
    let ghost head = pass_views(messages@);
    let n = lobby.peers.len();
    let mut k: usize = 0;
    proof {
        assert(lobby.peers@.take(0) =~= Seq::<i64>::empty());
        assert(pass_views(messages@) =~= head + member_announcements(
            lobby.peers@.take(0),
            peer_id,
            host,
        ));
    }
    while k < n
        invariant
            n == lobby.peers@.len(),
            k <= n,
            host == lobby.host,
            head.len() == 1,
            pass_views(messages@) == head + member_announcements(
                lobby.peers@.take(k as int),
                peer_id,
                host,
            ),
        decreases n - k,
    {
        let member = lobby.peers[k];
        let ghost earlier = pass_views(messages@);
        if member != peer_id {
            messages.push(
                WSMessagePass::Typed(ResponseType::PeerConnect { id: public_id(member, host) }),
            );
        }
        proof {
            let taken = lobby.peers@.take(k + 1);
            assert(taken.drop_last() =~= lobby.peers@.take(k as int));
            assert(taken.last() == member);
            if member != peer_id {
                assert(pass_views(messages@) =~= earlier.push(
                    PassView::Typed(ResponseView::PeerConnect { id: alias(member, host) }),
                ));
            }
            assert(pass_views(messages@) =~= head + member_announcements(taken, peer_id, host));
        }
        k = k + 1;
    }
    proof {
        assert(lobby.peers@.take(n as int) =~= lobby.peers@);
        assert(head =~= seq![
            PassView::Typed(
                ResponseView::Id { id: alias(peer_id, host), lobby_id: lobby_id@, mesh: lobby.mesh },
            ),
        ]);
    }
    messages
}

/// How long a writer whose peer is in no lobby waits before looking again.
pub const NO_LOBBY_POLL_MS: u64 = 1;

/// How long a writer waits before subscribing again after its lobby's
/// channel closed.
pub const RESUBSCRIBE_WAIT_MS: u64 = 500;

/// What a connection's writer got from its lobby's channel: a message, the
/// news that the channel closed, or the news that it fell behind by some
/// number of messages.
pub enum ChannelEvent {
    Message(WSMessagePass),
    Closed,
    Lagged(u64),
}

/// What the writer does next: hand a message to its client, go on
/// receiving, or wait and then subscribe again.
pub enum WriterAction {
    Forward(WSMessagePass),
    Skip,
    Resubscribe { wait_ms: u64 },
}

/// The writer's decision on one event of its lobby's channel, for the
/// member `peer_id` of a lobby hosted by `host`: a message is forwarded
/// when [`forward`] hands it to the member; a closed channel is left, to be
/// subscribed again after [`RESUBSCRIBE_WAIT_MS`]; falling behind is
/// skipped over.
pub fn writer_step(event: ChannelEvent, peer_id: i64, host: i64) -> (action: WriterAction)
    ensures
        match event {
            ChannelEvent::Message(m) => match forward(m@, peer_id, host) {
                Some(f) => action matches WriterAction::Forward(x) && x@ == f,
                None => action is Skip,
            },
            ChannelEvent::Closed => action matches WriterAction::Resubscribe { wait_ms }
                && wait_ms == RESUBSCRIBE_WAIT_MS,
            ChannelEvent::Lagged(_) => action is Skip,
        },
{
    match event {
        ChannelEvent::Message(m) => match filter_for_peer(m, peer_id, host) {
            Some(f) => WriterAction::Forward(f),
            None => WriterAction::Skip,
        },
        ChannelEvent::Closed => WriterAction::Resubscribe { wait_ms: RESUBSCRIBE_WAIT_MS },
        ChannelEvent::Lagged(_) => WriterAction::Skip,
    }
}

} // verus!
