//! Properties that hold across the operations of the crate: how relays
//! are routed, how ids are shown inside a lobby, and what joining, failing
//! and leaving do to the registry.

use vstd::prelude::*;

use crate::error::ErrorView;
use crate::routing::{alias, forward, relay_envelope, target};
use crate::state::{
    announce_step,
    connect_announcement,
    departure_step,
    disconnect_announcement,
    join_step,
    relay_check,
    relay_step,
    AppState,
    StateView,
};
use crate::lobby::next_count;
use crate::session::{error_reply, join_origin, join_replies, names_lobby};
use crate::types::{LobbyId, PassView, RelayView, ResponseView};

verus! {

/// A relay broadcast in a lobby is handed to exactly one member, the peer
/// it is addressed to (the host when addressed to 1), and it reaches that
/// member unchanged.
pub proof fn law_relay_reaches_only_its_addressee(
    sender_id: i64,
    dest_id: i64,
    host: i64,
    message: RelayView,
    member: i64,
)
    ensures
        forward(relay_envelope(sender_id, dest_id, host, message), member, host) == if member
            == target(dest_id, host) {
            Some(relay_envelope(sender_id, dest_id, host, message))
        } else {
            None
        },
{
}

/// Answering a relay to the sender id it showed reaches the peer that sent
/// it: the host is shown as 1, and a relay to 1 goes to the host. Ids of
/// connected peers are never 1.
pub proof fn law_reply_reaches_the_sender(sender_id: i64, host: i64)
    requires
        sender_id != 1,
    ensures
        target(alias(sender_id, host), host) == sender_id,
{
}

/// Inside a lobby, exactly the host is shown as 1.
pub proof fn law_only_the_host_is_one(id: i64, host: i64)
    requires
        id != 1,
    ensures
        alias(id, host) == 1 <==> id == host,
{
}

/// A member is never told of its own arrival or departure, and every other
/// member is told of it under the id that the lobby shows.
pub proof fn law_news_of_a_peer(peer_id: i64, member: i64, host: i64)
    ensures
        forward(connect_announcement(peer_id), peer_id, host) is None,
        forward(disconnect_announcement(peer_id), peer_id, host) is None,
        member != peer_id ==> forward(connect_announcement(peer_id), member, host) == Some(
            PassView::Typed(ResponseView::PeerConnect { id: alias(peer_id, host) }),
        ),
        member != peer_id ==> forward(disconnect_announcement(peer_id), member, host) == Some(
            PassView::Typed(ResponseView::PeerDisconnect { id: alias(peer_id, host) }),
        ),
{
}

/// A relay that succeeds was broadcast in the sender's lobby, and of that
/// lobby's members only its addressee is handed it.
pub proof fn law_relay_delivery(
    before: StateView,
    after: StateView,
    sender_id: i64,
    dest_id: i64,
    message: RelayView,
    member: i64,
)
    requires
        relay_step(before, after, sender_id, dest_id, message, Ok(())),
    ensures
        ({
            let lobby_id = before.peers[sender_id].lobby->0;
            let host = before.lobbies[lobby_id].host;
            let envelope = relay_envelope(sender_id, dest_id, host, message);
            &&& after.lobbies.contains_key(lobby_id)
            &&& after.lobbies[lobby_id].broadcasts.last() == envelope
            &&& (forward(envelope, member, host) is Some <==> member == target(dest_id, host))
        }),
{
}

/// A relay that fails leaves the registry as it was.
pub proof fn law_failed_relay_changes_nothing(
    before: StateView,
    after: StateView,
    sender_id: i64,
    dest_id: i64,
    message: RelayView,
    e: ErrorView,
)
    requires
        relay_step(before, after, sender_id, dest_id, message, Err(e)),
    ensures
        after == before,
{
}

/// A relay is refused exactly when the sender or the addressee is unknown
/// or in no lobby, when they are in different lobbies, or when the sender's
/// lobby is gone; a relay to 1 only needs the sender to be in a lobby.
pub proof fn law_relay_refusals(v: StateView, sender_id: i64, dest_id: i64)
    requires
        v.peers.contains_key(sender_id),
        v.peers[sender_id].lobby is Some,
        v.lobbies.contains_key(v.peers[sender_id].lobby->0),
        dest_id == 1 || (v.peers.contains_key(dest_id) && v.peers[dest_id].lobby
            == v.peers[sender_id].lobby),
    ensures
        relay_check(v, sender_id, dest_id) == Ok::<Seq<char>, ErrorView>(
            v.peers[sender_id].lobby->0,
        ),
{
}

/// A join that got past its checks leaves the peer in the lobby: the lobby
/// is the peer's current one, the peer is its newest member, and if the
/// join succeeded its arrival was the lobby's latest broadcast.
pub proof fn law_joined_peer_is_member(
    before: StateView,
    after: StateView,
    peer_id: i64,
    lobby_id: Seq<char>,
    res: Result<(), ErrorView>,
)
    requires
        join_step(before, after, peer_id, lobby_id, res),
        before.peers.contains_key(peer_id),
        before.lobbies.contains_key(lobby_id),
    ensures
        after.current_lobby(peer_id) == Some(lobby_id),
        after.lobbies[lobby_id].peers.last() == peer_id,
        after.lobbies[lobby_id].peers.len() == before.lobbies[lobby_id].peers.len() + 1,
        res is Ok ==> after.lobbies[lobby_id].broadcasts.last() == connect_announcement(peer_id),
        res is Ok || res == Err::<(), ErrorView>(
            ErrorView::ChannelSendError { refused: connect_announcement(peer_id) },
        ),
{
}

/// A peer that left is forgotten; when it hosted its lobby, so is every
/// member that remained in that lobby.
pub proof fn law_departed_peers_are_forgotten(
    before: StateView,
    after: StateView,
    peer_id: i64,
    host_left: bool,
    member: i64,
)
    requires
        departure_step(before, after, peer_id, host_left),
    ensures
        !after.peers.contains_key(peer_id),
        host_left ==> ({
            let lobby_id = before.peers[peer_id].lobby->0;
            after.lobbies[lobby_id].peers.contains(member) ==> !after.peers.contains_key(member)
        }),
{
}

/// A peer that creates a lobby and joins it is refused by the channel: the
/// new lobby's channel has no subscriber yet. The peer is still recorded in
/// the lobby, as its only member and its host, and is told of the error.
pub proof fn law_creator_join_is_refused_by_the_channel(
    before: StateView,
    after: StateView,
    host: i64,
    mesh: bool,
    lobby_id: Seq<char>,
    res: Result<(), ErrorView>,
)
    requires
        before.peers.contains_key(host),
        join_step(before.with_new_lobby(lobby_id, host, mesh), after, host, lobby_id, res),
    ensures
        res == Err::<(), ErrorView>(
            ErrorView::ChannelSendError { refused: connect_announcement(host) },
        ),
        after.peers[host].lobby == Some(lobby_id),
        after.lobbies[lobby_id].peers == seq![host],
        after.lobbies[lobby_id].host == host,
        after.lobbies[lobby_id].broadcasts.len() == 0,
        join_replies(res, after, host, lobby_id)[0] == error_reply(
            "error joining lobby: "@,
            ErrorView::ChannelSendError { refused: connect_announcement(host) },
        ),
{
    assert(seq![host] =~= Seq::<i64>::empty().push(host));
}

/// After a peer joined a lobby and then relayed a message to 1, both
/// accepted, the lobby's channel has carried the peer's arrival and then
/// the relay, addressed to the host and showing the sender as the lobby
/// sees it; of the members only the host is handed the relay.
pub proof fn law_join_then_relay_to_the_host(
    start: StateView,
    joined: StateView,
    relayed: StateView,
    peer_id: i64,
    lobby_id: Seq<char>,
    message: RelayView,
    member: i64,
)
    requires
        join_step(start, joined, peer_id, lobby_id, Ok(())),
        relay_step(joined, relayed, peer_id, 1, message, Ok(())),
    ensures
        ({
            let host = start.lobbies[lobby_id].host;
            let envelope = relay_envelope(peer_id, 1, host, message);
            &&& envelope == PassView::Typed(
                ResponseView::Relay { sender_id: alias(peer_id, host), dest_id: host, message },
            )
            &&& relayed.lobbies[lobby_id].broadcasts == start.lobbies[lobby_id].broadcasts.push(
                connect_announcement(peer_id),
            ).push(envelope)
            &&& (forward(envelope, member, host) is Some <==> member == host)
        }),
{
}

/// The relay broadcast for a message carries that message exactly as the
/// sender gave it, whoever it is addressed to; the sender is shown as 1
/// when it is the host, and 1 as the addressee stands for the host.
pub proof fn law_relay_carries_the_senders_message(
    sender_id: i64,
    dest_id: i64,
    host: i64,
    message: RelayView,
)
    ensures
        relay_envelope(sender_id, dest_id, host, message) == PassView::Typed(
            ResponseView::Relay {
                sender_id: if sender_id == host {
                    1
                } else {
                    sender_id
                },
                dest_id: if dest_id == 1 {
                    host
                } else {
                    dest_id
                },
                message,
            },
        ),
{
}

/// A relay that succeeds puts on its lobby's channel the sender's message,
/// unchanged; one that the channel refuses hands back that same message.
pub proof fn law_relayed_message_is_unchanged(
    before: StateView,
    after: StateView,
    sender_id: i64,
    dest_id: i64,
    message: RelayView,
    res: Result<(), ErrorView>,
)
    requires
        relay_step(before, after, sender_id, dest_id, message, res),
    ensures
        res is Ok ==> (after.lobbies[before.peers[sender_id].lobby->0].broadcasts.last() matches
            PassView::Typed(ResponseView::Relay { message: m, .. }) && m == message),
        res matches Err(ErrorView::ChannelSendError { refused }) ==> (refused matches
            PassView::Typed(ResponseView::Relay { message: m, .. }) && m == message),
{
}

/// The peer that joins a lobby is told the lobby's own kind: the id reply
/// (after the error, if the join failed) carries the mesh flag the lobby
/// was created with, the lobby's id, and the peer's id as the lobby shows
/// it (1 for the host).
pub proof fn law_joiner_is_told_the_lobby_kind(
    before: StateView,
    after: StateView,
    peer_id: i64,
    request: LobbyId,
    lobby_id: Seq<char>,
    res: Result<(), ErrorView>,
)
    requires
        names_lobby(request, lobby_id),
        join_step(join_origin(before, peer_id, request, lobby_id), after, peer_id, lobby_id, res),
        after.lobbies.contains_key(lobby_id),
    ensures
        ({
            let (mesh, host) = match request {
                LobbyId::Create { mesh } => (mesh, peer_id),
                LobbyId::Existing { .. } => (
                    before.lobbies[lobby_id].mesh,
                    before.lobbies[lobby_id].host,
                ),
            };
            let first = if res is Ok {
                0int
            } else {
                1int
            };
            join_replies(res, after, peer_id, lobby_id)[first] == PassView::Typed(
                ResponseView::Id {
                    id: if peer_id == host {
                        1
                    } else {
                        peer_id
                    },
                    lobby_id,
                    mesh,
                },
            )
        }),
{
}

/// A departing peer's lobby is always handed the news, host or not: the
/// lobby's channel is offered one more message, and the outcome is the
/// channel's: either it took the peer's departure, or it refused exactly
/// that message.
pub proof fn law_departure_is_handed_to_the_lobby(
    before: AppState,
    after: AppState,
    peer_id: i64,
    r: Option<Result<(), crate::error::Error>>,
)
    requires
        announce_step(before, after, peer_id, r),
        before@.current_lobby(peer_id) is Some,
        before.sends_to(before@.current_lobby(peer_id)->0) < u64::MAX,
    ensures
        ({
            let lobby_id = before@.current_lobby(peer_id)->0;
            let news = PassView::Typed(ResponseView::PeerDisconnect { id: peer_id });
            &&& after.sends_to(lobby_id) == before.sends_to(lobby_id) + 1
            &&& r matches Some(Ok(())) ==> after@.lobbies[lobby_id].broadcasts
                == before@.lobbies[lobby_id].broadcasts.push(news)
            &&& (r matches Some(Err(e)) ==> e@ == (ErrorView::ChannelSendError { refused: news }))
            &&& r is Some
        }),
{
}

/// A peer that leaves is dropped from its lobby's members exactly once:
/// its first entry is removed and the others keep their order; a lobby it
/// was not a member of keeps its members.
pub proof fn law_leaving_drops_the_first_entry(
    before: StateView,
    after: StateView,
    peer_id: i64,
    host_left: bool,
)
    requires
        departure_step(before, after, peer_id, host_left),
        before.wf(),
        before.peers.contains_key(peer_id),
        before.peers[peer_id].lobby is Some,
        before.lobbies.contains_key(before.peers[peer_id].lobby->0),
    ensures
        ({
            let lobby_id = before.peers[peer_id].lobby->0;
            let members = before.lobbies[lobby_id].peers;
            let rest = after.lobbies[lobby_id].peers;
            &&& members.contains(peer_id) ==> (exists|k: int|
                #![trigger members[k]]
                0 <= k < members.len() && members[k] == peer_id && (forall|j: int|
                    0 <= j < k ==> members[j] != peer_id) && rest == members.subrange(0, k)
                    + members.subrange(k + 1, members.len() as int))
            &&& !members.contains(peer_id) ==> rest == members
            &&& rest.len() == if members.contains(peer_id) {
                members.len() - 1
            } else {
                members.len() as int
            }
        }),
{
    let lobby_id = before.peers[peer_id].lobby->0;
    let members = before.lobbies[lobby_id].peers;
    members.index_of_first_ensures(peer_id);
    if members.contains(peer_id) {
        let k = members.index_of_first(peer_id)->0;
        assert(members[k] == peer_id);
    }
}

} // verus!
