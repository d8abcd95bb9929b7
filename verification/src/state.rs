//! The server's registry of lobbies and peers, and the operations that the
//! requests of a connection perform on it.
//!
//! Lobbies are kept in a vector and looked up by id; the view presents them
//! as a map from id to lobby, in which the first lobby with a given id is
//! the one found. Every operation keeps the ids distinct (see
//! [`AppState::distinct_lobbies`]), so the map holds each lobby of the
//! vector.

use vstd::prelude::*;

use crate::error::{Error, ErrorView};
use crate::lobby::{next_count, Lobby, LobbyView, Peer, PeerView};
use crate::outside::{cuid_with_length, random_in_range};
use crate::routing::{public_id, relay_envelope, relay_target};
use crate::types::{ChannelCommunionMessage, PassView, ResponseType, ResponseView, WSMessagePass};

verus! {

broadcast use vstd::std_specs::hash::group_hash_axioms;

/// Length of the ids of new lobbies.
pub const LOBBY_ID_LENGTH: u16 = 8;

/// Smallest id handed to a connecting peer; 1 stands for a lobby's host.
pub const MIN_PEER_ID: i64 = 2;

/// Bound above the ids handed to connecting peers.
pub const PEER_ID_BOUND: i64 = 2147483647;

/// The registry of lobbies and of connected peers. Lobbies are kept in a
/// vector: std's `HashMap` has a verified model only for keys of primitive
/// types, not for `String` ids.
#[derive(Debug)]
pub struct AppState {
    pub lobbies: Vec<Lobby>,
    pub peers: std::collections::HashMap<i64, Peer>,
}

/// View of the registry: lobbies by id, peers by id.
pub struct StateView {
    pub lobbies: Map<Seq<char>, LobbyView>,
    pub peers: Map<i64, PeerView>,
}

/// `c` is a lowercase ASCII letter.
pub open spec fn is_lowercase_letter(c: char) -> bool {
    'a' <= c <= 'z'
}

/// `c` is a lowercase base-36 digit: an ASCII digit or lowercase letter.
pub open spec fn is_base36_digit(c: char) -> bool {
    '0' <= c <= '9' || is_lowercase_letter(c)
}

/// `id` has the shape of a cuid of at most `length` characters: at least
/// two characters, a lowercase letter, then lowercase base-36 digits.
pub open spec fn cuid_shaped(id: Seq<char>, length: nat) -> bool {
    &&& 2 <= id.len() <= length
    &&& is_lowercase_letter(id[0])
    &&& forall|i: int| 1 <= i < id.len() ==> is_base36_digit(#[trigger] id[i])
}

/// The lobbies of a sequence by id; where ids repeat, the first one wins.
pub closed spec fn lobby_map(s: Seq<LobbyView>) -> Map<Seq<char>, LobbyView>
    decreases s.len(),
{
    if s.len() == 0 {
        Map::empty()
    } else {
        lobby_map(s.drop_first()).insert(s[0].id, s[0])
    }
}

/// The views of a sequence of lobbies.
pub open spec fn lobby_views(s: Seq<Lobby>) -> Seq<LobbyView> {
    s.map_values(|l: Lobby| l@)
}

/// `i` is the first position of a lobby with id `id` in `s`.
pub open spec fn first_with_id(s: Seq<LobbyView>, id: Seq<char>, i: int) -> bool {
    &&& 0 <= i < s.len()
    &&& s[i].id == id
    &&& forall|j: int| 0 <= j < i ==> s[j].id != id
}

/// No two lobbies of `s` share an id.
pub open spec fn distinct_ids(s: Seq<LobbyView>) -> bool {
    forall|i: int, j: int| 0 <= i < s.len() && 0 <= j < s.len() && i != j ==> s[i].id != s[j].id
}

proof fn lemma_lobby_map_first(s: Seq<LobbyView>, id: Seq<char>, i: int)
    requires
        first_with_id(s, id, i),
    ensures
        lobby_map(s).contains_key(id),
        lobby_map(s)[id] == s[i],
    decreases s.len(),
{
    if i > 0 {
        lemma_lobby_map_first(s.drop_first(), id, i - 1);
    }
}

proof fn lemma_lobby_map_absent(s: Seq<LobbyView>, id: Seq<char>)
    requires
        forall|j: int| 0 <= j < s.len() ==> s[j].id != id,
    ensures
        !lobby_map(s).contains_key(id),
    decreases s.len(),
{
    if s.len() > 0 {
        lemma_lobby_map_absent(s.drop_first(), id);
    }
}

proof fn lemma_lobby_map_update(s: Seq<LobbyView>, id: Seq<char>, i: int, v: LobbyView)
    requires
        first_with_id(s, id, i),
        v.id == id,
    ensures
        lobby_map(s.update(i, v)) == lobby_map(s).insert(id, v),
    decreases s.len(),
{
    let t = s.update(i, v);
    if i == 0 {
        assert(t.drop_first() =~= s.drop_first());
        assert(lobby_map(t) =~= lobby_map(s).insert(id, v));
    } else {
        assert(t.drop_first() =~= s.drop_first().update(i - 1, v));
        lemma_lobby_map_update(s.drop_first(), id, i - 1, v);
        assert(lobby_map(t) =~= lobby_map(s).insert(id, v));
    }
}

proof fn lemma_lobby_map_push(s: Seq<LobbyView>, v: LobbyView)
    requires
        forall|j: int| 0 <= j < s.len() ==> s[j].id != v.id,
    ensures
        lobby_map(s.push(v)) == lobby_map(s).insert(v.id, v),
    decreases s.len(),
{
    let t = s.push(v);
    if s.len() == 0 {
        assert(t.drop_first() =~= s);
        assert(lobby_map(t) =~= lobby_map(s).insert(v.id, v));
    } else {
        assert(t.drop_first() =~= s.drop_first().push(v));
        lemma_lobby_map_push(s.drop_first(), v);
        assert(lobby_map(t) =~= lobby_map(s).insert(v.id, v));
    }
}

/// The outcome of a request, as a view.
pub open spec fn outcome(r: Result<(), Error>) -> Result<(), ErrorView> {
    match r {
        Ok(()) => Ok(()),
        Err(e) => Err(e@),
    }
}

/// What the lobby's members are told when `peer_id` joins.
pub open spec fn connect_announcement(peer_id: i64) -> PassView {
    PassView::Typed(ResponseView::PeerConnect { id: peer_id })
}

/// What the lobby's members are told when `peer_id` leaves.
pub open spec fn disconnect_announcement(peer_id: i64) -> PassView {
    PassView::Typed(ResponseView::PeerDisconnect { id: peer_id })
}

/// The error with which a join of `peer_id` into `lobby_id` is refused
/// before anything is broadcast, if any.
pub open spec fn join_refusal(v: StateView, peer_id: i64, lobby_id: Seq<char>) -> Option<
    ErrorView,
> {
    if !v.peers.contains_key(peer_id) {
        Some(ErrorView::PeerDoesNotExist { id: peer_id })
    } else if !v.lobbies.contains_key(lobby_id) {
        Some(ErrorView::LobbyDoesNotExist { id: lobby_id })
    } else {
        None
    }
}

/// A join of `peer_id` into `lobby_id` takes the registry from `before`
/// to `after` with result `res`. The peer is recorded as asking for the
/// lobby even when the lobby does not exist; when it does, the peer is
/// appended to its members and its arrival is broadcast, and the join
/// fails with a channel error when no member was listening; it can only
/// succeed in a lobby whose channel somebody subscribed to.
pub open spec fn join_step(
    before: StateView,
    after: StateView,
    peer_id: i64,
    lobby_id: Seq<char>,
    res: Result<(), ErrorView>,
) -> bool {
    match join_refusal(before, peer_id, lobby_id) {
        Some(e) => {
            &&& res == Err::<(), ErrorView>(e)
            &&& after == if e is PeerDoesNotExist {
                before
            } else {
                before.with_peer_lobby(peer_id, lobby_id)
            }
        },
        None => {
            let joined = before.with_peer_lobby(peer_id, lobby_id).with_member(lobby_id, peer_id);
            ||| res == Ok::<(), ErrorView>(()) && before.lobbies[lobby_id].subscribed
                && after == joined.with_broadcast(
                lobby_id,
                connect_announcement(peer_id),
            )
            ||| res == Err::<(), ErrorView>(
                ErrorView::ChannelSendError { refused: connect_announcement(peer_id) },
            ) && after == joined
        },
    }
}

/// The result of the join that took `before` to `after`: a refusal, or
/// else success exactly when the lobby's channel accepted the announcement.
pub open spec fn join_result(
    before: StateView,
    after: StateView,
    peer_id: i64,
    lobby_id: Seq<char>,
) -> Result<(), ErrorView> {
    match join_refusal(before, peer_id, lobby_id) {
        Some(e) => Err(e),
        None => if after.lobbies[lobby_id].broadcasts.len()
            > before.lobbies[lobby_id].broadcasts.len() {
            Ok(())
        } else {
            Err(ErrorView::ChannelSendError { refused: connect_announcement(peer_id) })
        },
    }
}

/// The checks of a relay from `sender_id` to `dest_id`: the lobby through
/// which it goes, or the error that refuses it. Both peers must be in the
/// same lobby, except that a relay to 1 goes to the sender's host.
pub open spec fn relay_check(v: StateView, sender_id: i64, dest_id: i64) -> Result<
    Seq<char>,
    ErrorView,
> {
    if !v.peers.contains_key(sender_id) {
        Err(ErrorView::PeerDoesNotExist { id: sender_id })
    } else if v.peers[sender_id].lobby is None {
        Err(ErrorView::NoLobby { peer_id: sender_id })
    } else {
        let sender_lobby = v.peers[sender_id].lobby->0;
        if dest_id != 1 && !v.peers.contains_key(dest_id) {
            Err(ErrorView::PeerDoesNotExist { id: dest_id })
        } else if dest_id != 1 && v.peers[dest_id].lobby is None {
            Err(ErrorView::NoLobby { peer_id: dest_id })
        } else if dest_id != 1 && v.peers[dest_id].lobby->0 != sender_lobby {
            Err(
                ErrorView::LobbiesDoNotMatch {
                    sender_lobby_id: sender_lobby,
                    dest_lobby_id: v.peers[dest_id].lobby->0,
                },
            )
        } else if !v.lobbies.contains_key(sender_lobby) {
            Err(ErrorView::LobbyDoesNotExist { id: sender_lobby })
        } else {
            Ok(sender_lobby)
        }
    }
}

/// A relay from `sender_id` to `dest_id` takes the registry from `before`
/// to `after` with result `res`: when the checks pass, the envelope is
/// broadcast on the lobby's channel, and the relay fails with a channel
/// error when no member was listening; it can only succeed in a lobby whose
/// channel somebody subscribed to.
pub open spec fn relay_step(
    before: StateView,
    after: StateView,
    sender_id: i64,
    dest_id: i64,
    message: crate::types::RelayView,
    res: Result<(), ErrorView>,
) -> bool {
    match relay_check(before, sender_id, dest_id) {
        Err(e) => res == Err::<(), ErrorView>(e) && after == before,
        Ok(lobby_id) => {
            let envelope = relay_envelope(
                sender_id,
                dest_id,
                before.lobbies[lobby_id].host,
                message,
            );
            ||| res == Ok::<(), ErrorView>(()) && before.lobbies[lobby_id].subscribed && after
                == before.with_broadcast(lobby_id, envelope)
            ||| res == Err::<(), ErrorView>(ErrorView::ChannelSendError { refused: envelope })
                && after == before
        },
    }
}

/// The result of the relay that took `before` to `after`.
pub open spec fn relay_result(
    before: StateView,
    after: StateView,
    sender_id: i64,
    dest_id: i64,
    message: crate::types::RelayView,
) -> Result<(), ErrorView> {
    match relay_check(before, sender_id, dest_id) {
        Err(e) => Err(e),
        Ok(lobby_id) => if after.lobbies[lobby_id].broadcasts.len()
            > before.lobbies[lobby_id].broadcasts.len() {
            Ok(())
        } else {
            Err(
                ErrorView::ChannelSendError {
                    refused: relay_envelope(
                        sender_id,
                        dest_id,
                        before.lobbies[lobby_id].host,
                        message,
                    ),
                },
            )
        },
    }
}

/// A peer leaving: `peer_id` is forgotten and dropped from the members of
/// its lobby (its first entry there); when it hosted that lobby, every
/// remaining member is forgotten too, and `host_left` holds.
pub open spec fn departure_step(
    before: StateView,
    after: StateView,
    peer_id: i64,
    host_left: bool,
) -> bool {
    if !before.peers.contains_key(peer_id) {
        after == before && !host_left
    } else {
        let peer = before.peers[peer_id];
        let forgotten = StateView { peers: before.peers.remove(peer_id), ..before };
        if peer.lobby is Some && before.lobbies.contains_key(peer.lobby->0) {
            let lobby_id = peer.lobby->0;
            let lobby = before.lobbies[lobby_id];
            let rest = lobby.peers.remove_value(peer.id);
            let left = StateView {
                lobbies: forgotten.lobbies.insert(lobby_id, LobbyView { peers: rest, ..lobby }),
                ..forgotten
            };
            if lobby.host == peer_id {
                &&& host_left
                &&& after == StateView { peers: left.peers.remove_keys(rest.to_set()), ..left }
            } else {
                !host_left && after == left
            }
        } else {
            after == forgotten && !host_left
        }
    }
}

/// The frame that closes the connection of a host that left.
pub open spec fn host_left_frame() -> PassView {
    PassView::Close { code: 1011, reason: "host disconnected"@ }
}

/// Builds the frame of [`host_left_frame`].
pub fn host_left_frame_message() -> (frame: WSMessagePass)
    ensures
        frame@ == host_left_frame(),
{
    let mut reason = String::new();
    reason.append("host disconnected");
    proof {
        assert(reason@ =~= "host disconnected"@);
    }
    WSMessagePass::Raw(ChannelCommunionMessage::Close { code: 1011, reason })
}

/// The first lobby of `s` with the id `id`, if any.
pub open spec fn first_lobby(s: Seq<Lobby>, id: Seq<char>) -> Option<Lobby>
    decreases s.len(),
{
    if s.len() == 0 {
        None
    } else if s[0].id@ == id {
        Some(s[0])
    } else {
        first_lobby(s.drop_first(), id)
    }
}

/// The lobby found at position `i` of `lobbies` is the first one with its id.
pub proof fn lemma_first_lobby(lobbies: Seq<Lobby>, id: Seq<char>, i: int)
    requires
        first_with_id(lobby_views(lobbies), id, i),
    ensures
        first_lobby(lobbies, id) == Some(lobbies[i]),
    decreases lobbies.len(),
{
    assert(lobby_views(lobbies)[0] == lobbies[0]@);
    if i > 0 {
        assert(lobby_views(lobbies.drop_first()) =~= lobby_views(lobbies).drop_first());
        lemma_first_lobby(lobbies.drop_first(), id, i - 1);
    }
}

/// When only the lobby at position `i`, the first with the id `id`, was
/// changed and kept its id, it is still the first one with that id.
proof fn lemma_first_lobby_kept(before: Seq<Lobby>, after: Seq<Lobby>, id: Seq<char>, i: int)
    requires
        first_with_id(lobby_views(before), id, i),
        after.len() == before.len(),
        after[i].id@ == id,
        forall|j: int| 0 <= j < before.len() && j != i ==> after[j] == before[j],
    ensures
        first_lobby(before, id) == Some(before[i]),
        first_lobby(after, id) == Some(after[i]),
{
    lemma_first_lobby(before, id, i);
    assert forall|j: int| 0 <= j < i implies lobby_views(after)[j].id != id by {
        assert(lobby_views(before)[j].id != id);
    }
    assert(lobby_views(after)[i] == after[i]@);
    assert(first_with_id(lobby_views(after), id, i));
    lemma_first_lobby(after, id, i);
}

/// The lobby found at position `i` of `lobbies` is the one the view holds
/// under `id`.
pub proof fn lemma_found_lobby(lobbies: Seq<Lobby>, id: Seq<char>, i: int)
    requires
        first_with_id(lobby_views(lobbies), id, i),
    ensures
        lobby_map(lobby_views(lobbies)).contains_key(id),
        lobby_map(lobby_views(lobbies))[id] == lobbies[i]@,
{
    lemma_lobby_map_first(lobby_views(lobbies), id, i);
}

/// When no lobby of `lobbies` has the id `id`, the view holds none under it.
pub proof fn lemma_missing_lobby(lobbies: Seq<Lobby>, id: Seq<char>)
    requires
        forall|j: int| 0 <= j < lobbies.len() ==> lobby_views(lobbies)[j].id != id,
    ensures
        !lobby_map(lobby_views(lobbies)).contains_key(id),
{
    lemma_lobby_map_absent(lobby_views(lobbies), id);
}

/// Announcing the departure of `peer_id` takes the registry from `before`
/// to `after` with result `r`: when the peer is in a lobby, the departure is
/// handed to the lobby's channel (and counted) and `r` is the channel's
/// answer, an error carrying the refused announcement; otherwise nothing
/// happens and `r` is `None`.
pub open spec fn announce_step(
    before: AppState,
    after: AppState,
    peer_id: i64,
    r: Option<Result<(), Error>>,
) -> bool {
    match before@.current_lobby(peer_id) {
        None => r is None && after@ == before@,
        Some(lobby_id) => {
            &&& r is Some
            &&& r->0 is Ok ==> after@ == before@.with_broadcast(
                lobby_id,
                disconnect_announcement(peer_id),
            )
            &&& r->0 is Err ==> r->0->Err_0@ == (ErrorView::ChannelSendError {
                refused: disconnect_announcement(peer_id),
            }) && after@ == before@
            &&& !before@.lobbies[lobby_id].subscribed ==> r->0 is Err
            &&& after.sends_to(lobby_id) == next_count(before.sends_to(lobby_id))
        },
    }
}

impl View for AppState {
    type V = StateView;

    open spec fn view(&self) -> StateView {
        StateView {
            lobbies: lobby_map(lobby_views(self.lobbies@)),
            peers: self.peers@.map_values(|p: Peer| p@),
        }
    }
}

impl AppState {
    /// How many messages were handed to the channel of the lobby
    /// `lobby_id` (0 when there is no such lobby).
    pub open spec fn sends_to(&self, lobby_id: Seq<char>) -> u64 {
        match first_lobby(self.lobbies@, lobby_id) {
            Some(lobby) => lobby.sends(),
            None => 0,
        }
    }

    /// No two lobbies of the registry share an id.
    pub open spec fn distinct_lobbies(&self) -> bool {
        distinct_ids(lobby_views(self.lobbies@))
    }
}

impl StateView {
    /// Peers are filed under their own id, lobbies under theirs.
    pub open spec fn wf(self) -> bool {
        &&& forall|k: i64| #[trigger] self.peers.contains_key(k) ==> self.peers[k].id == k
        &&& forall|k: Seq<char>| #[trigger] self.lobbies.contains_key(k) ==> self.lobbies[k].id == k
    }

    /// The registry after `peer_id` connected.
    pub open spec fn with_new_peer(self, peer_id: i64) -> StateView {
        StateView {
            peers: self.peers.insert(peer_id, PeerView { id: peer_id, lobby: None }),
            ..self
        }
    }

    /// The registry after a lobby was created under `id`.
    pub open spec fn with_new_lobby(self, id: Seq<char>, host: i64, mesh: bool) -> StateView {
        StateView {
            lobbies: self.lobbies.insert(
                id,
                LobbyView::fresh(id, host, mesh, Seq::empty()),
            ),
            ..self
        }
    }

    /// The registry after `peer_id` asked for the lobby `lobby_id`.
    pub open spec fn with_peer_lobby(self, peer_id: i64, lobby_id: Seq<char>) -> StateView {
        StateView {
            peers: self.peers.insert(
                peer_id,
                PeerView { lobby: Some(lobby_id), ..self.peers[peer_id] },
            ),
            ..self
        }
    }

    /// The registry after `peer_id` was added to the members of `lobby_id`.
    pub open spec fn with_member(self, lobby_id: Seq<char>, peer_id: i64) -> StateView {
        StateView {
            lobbies: self.lobbies.insert(
                lobby_id,
                LobbyView {
                    peers: self.lobbies[lobby_id].peers.push(peer_id),
                    ..self.lobbies[lobby_id]
                },
            ),
            ..self
        }
    }

    /// The registry after the channel of `lobby_id` accepted `message`.
    pub open spec fn with_broadcast(self, lobby_id: Seq<char>, message: PassView) -> StateView {
        StateView {
            lobbies: self.lobbies.insert(
                lobby_id,
                self.lobbies[lobby_id].with_broadcast(message),
            ),
            ..self
        }
    }

    /// The registry after someone subscribed to the channel of `lobby_id`.
    pub open spec fn with_subscriber(self, lobby_id: Seq<char>) -> StateView {
        StateView {
            lobbies: self.lobbies.insert(lobby_id, self.lobbies[lobby_id].with_subscriber()),
            ..self
        }
    }

    /// The lobby that `peer_id` belongs to: the one it last asked for,
    /// provided that lobby exists.
    pub open spec fn current_lobby(self, peer_id: i64) -> Option<Seq<char>> {
        if self.peers.contains_key(peer_id) && self.peers[peer_id].lobby is Some
            && self.lobbies.contains_key(self.peers[peer_id].lobby->0) {
            self.peers[peer_id].lobby
        } else {
            None
        }
    }
}

impl Default for AppState {
    /// An empty registry.
    fn default() -> (state: AppState)
        ensures
            state@.lobbies == Map::<Seq<char>, LobbyView>::empty(),
            state@.peers == Map::<i64, PeerView>::empty(),
            state@.wf(),
            state.distinct_lobbies(),
    {
        let state = AppState { lobbies: Vec::new(), peers: std::collections::HashMap::new() };
        proof {
            assert(lobby_views(state.lobbies@) =~= Seq::empty());
            assert(state@.peers =~= Map::<i64, PeerView>::empty());
        }
        state
    }
}

impl AppState {
    /// The position of the first lobby with id `id`.
    pub(crate) fn find_lobby(&self, id: &String) -> (r: Option<usize>)
        ensures
            match r {
                Some(i) => first_with_id(lobby_views(self.lobbies@), id@, i as int),
                None => forall|j: int|
                    0 <= j < self.lobbies@.len() ==> lobby_views(self.lobbies@)[j].id != id@,
            },
    {
        let mut i: usize = 0;
        while i < self.lobbies.len()
            invariant
                i <= self.lobbies@.len(),
                forall|j: int| 0 <= j < i ==> lobby_views(self.lobbies@)[j].id != id@,
            decreases self.lobbies@.len() - i,
        {
            if self.lobbies[i].id == *id {
                return Some(i);
            }
            i = i + 1;
        }
        None
    }

    /// Registers a newly connected peer, with no lobby yet.
    pub fn register_peer(&mut self, peer_id: i64)
        ensures
            final(self)@ == old(self)@.with_new_peer(peer_id),
            final(self).lobbies@ == old(self).lobbies@,
            old(self)@.wf() ==> final(self)@.wf(),
            old(self).distinct_lobbies() ==> final(self).distinct_lobbies(),
    {
        self.peers.insert(peer_id, Peer { id: peer_id, lobby: None });
        proof {
            assert(self@.peers =~= old(self)@.peers.insert(
                peer_id,
                PeerView { id: peer_id, lobby: None },
            ));
        }
    }

    /// Draws a random id for a connecting peer and registers the peer
    /// under it.
    pub fn connect_peer(&mut self) -> (peer_id: i64)
        ensures
            MIN_PEER_ID <= peer_id < PEER_ID_BOUND,
            final(self)@ == old(self)@.with_new_peer(peer_id),
            final(self).lobbies@ == old(self).lobbies@,
            old(self)@.wf() ==> final(self)@.wf(),
            old(self).distinct_lobbies() ==> final(self).distinct_lobbies(),
    {
        let peer_id = random_in_range(MIN_PEER_ID, PEER_ID_BOUND);
        self.register_peer(peer_id);
        peer_id
    }

    /// Creates a lobby with a fresh random id, hosted by `host`, with no
    /// member yet. A lobby that already had the drawn id is replaced.
    pub fn create_lobby(&mut self, host: i64, mesh: bool) -> (id: String)
        ensures
            cuid_shaped(id@, LOBBY_ID_LENGTH as nat),
            final(self)@ == old(self)@.with_new_lobby(id@, host, mesh),
            old(self)@.wf() ==> final(self)@.wf(),
            old(self).distinct_lobbies() ==> final(self).distinct_lobbies(),
    {
        let id = cuid_with_length(LOBBY_ID_LENGTH);
        let lobby = Lobby::new(id.clone(), host, mesh, Vec::new());
        let ghost lv = lobby@;
        let ghost before = lobby_views(self.lobbies@);
        match self.find_lobby(&id) {
            Some(i) => {
                self.lobbies.set(i, lobby);
                proof {
                    assert(lobby_views(self.lobbies@) =~= before.update(i as int, lv));
                    lemma_lobby_map_update(before, id@, i as int, lv);
                }
            },
            None => {
                self.lobbies.push(lobby);
                proof {
                    assert(lobby_views(self.lobbies@) =~= before.push(lv));
                    lemma_lobby_map_push(before, lv);
                }
            },
        }
        proof {
            assert(lv.peers =~= Seq::<i64>::empty());
            assert(self@.lobbies =~= old(self)@.lobbies.insert(id@, lv));
        }
        id
    }

    /// Puts `peer_id` into the lobby `lobby_id` and tells the lobby.
    pub fn join_lobby(&mut self, peer_id: i64, lobby_id: String) -> (r: Result<(), Error>)
        ensures
            join_step(old(self)@, final(self)@, peer_id, lobby_id@, outcome(r)),
            join_refusal(old(self)@, peer_id, lobby_id@) is None
                ==> final(self).sends_to(lobby_id@) == next_count(old(self).sends_to(lobby_id@)),
            old(self)@.wf() ==> final(self)@.wf(),
            old(self).distinct_lobbies() ==> final(self).distinct_lobbies(),
    {
        let peer = match self.peers.get(&peer_id) {
            Some(p) => Peer { id: p.id, lobby: Some(lobby_id.clone()) },
            None => {
                return Err(Error::PeerDoesNotExist { id: peer_id });
            },
        };
        self.peers.insert(peer_id, peer);
        proof {
            assert(self@.peers =~= old(self)@.with_peer_lobby(peer_id, lobby_id@).peers);
        }
        let ghost asked = self@;
        let i = match self.find_lobby(&lobby_id) {
            Some(i) => i,
            None => {
                proof {
                    lemma_lobby_map_absent(lobby_views(self.lobbies@), lobby_id@);
                }
                return Err(Error::LobbyDoesNotExist { id: lobby_id });
            },
        };
        let ghost views = lobby_views(self.lobbies@);
        let ghost found = self.lobbies@;
        proof {
            lemma_lobby_map_first(views, lobby_id@, i as int);
        }
        self.lobbies[i].peers.push(peer_id);
        let ghost member = self.lobbies@[i as int]@;
        proof {
            assert(lobby_views(self.lobbies@) =~= views.update(i as int, member));
            lemma_lobby_map_update(views, lobby_id@, i as int, member);
            assert(self@.lobbies =~= asked.with_member(lobby_id@, peer_id).lobbies);
        }
        let ghost joined = self@;
        let ghost joined_views = lobby_views(self.lobbies@);
        let announcement = WSMessagePass::Typed(ResponseType::PeerConnect { id: peer_id });
        let sent = self.lobbies[i].broadcast(announcement);
        proof {
            let now = self.lobbies@[i as int]@;
            assert(lobby_views(self.lobbies@) =~= joined_views.update(i as int, now));
            assert(first_with_id(joined_views, lobby_id@, i as int));
            lemma_lobby_map_update(joined_views, lobby_id@, i as int, now);
            lemma_first_lobby_kept(found, self.lobbies@, lobby_id@, i as int);
        }
        match sent {
            Ok(_) => {
                proof {
                    assert(self@.lobbies =~= joined.with_broadcast(
                        lobby_id@,
                        connect_announcement(peer_id),
                    ).lobbies);
                }
                Ok(())
            },
            Err(e) => {
                proof {
                    assert(self@.lobbies =~= joined.lobbies);
                }
                Err(Error::ChannelSendError(e))
            },
        }
    }
    /// Relays `message` from `sender_id` to `dest_id` through the sender's
    /// lobby, with ids as the lobby's members see them.
    pub fn relay_message(&mut self, sender_id: i64, dest_id: i64, message: crate::types::RelayMessage) -> (r: Result<(), Error>)
        ensures
            relay_step(old(self)@, final(self)@, sender_id, dest_id, message@, outcome(r)),
            relay_check(old(self)@, sender_id, dest_id) matches Ok(lobby_id)
                ==> final(self).sends_to(lobby_id) == next_count(old(self).sends_to(lobby_id)),
            old(self)@.wf() ==> final(self)@.wf(),
            old(self).distinct_lobbies() ==> final(self).distinct_lobbies(),
    {
        let sender_lobby: String = match self.peers.get(&sender_id) {
            Some(p) => match &p.lobby {
                Some(l) => l.clone(),
                None => {
                    return Err(Error::NoLobby { peer_id: sender_id });
                },
            },
            None => {
                return Err(Error::PeerDoesNotExist { id: sender_id });
            },
        };
        if dest_id != 1 {
            match self.peers.get(&dest_id) {
                Some(p) => match &p.lobby {
                    Some(dest_lobby) => {
                        if *dest_lobby != sender_lobby {
                            return Err(
                                Error::LobbiesDoNotMatch {
                                    sender_lobby_id: sender_lobby.clone(),
                                    dest_lobby_id: dest_lobby.clone(),
                                },
                            );
                        }
                    },
                    None => {
                        return Err(Error::NoLobby { peer_id: dest_id });
                    },
                },
                None => {
                    return Err(Error::PeerDoesNotExist { id: dest_id });
                },
            }
        }
        let i = match self.find_lobby(&sender_lobby) {
            Some(i) => i,
            None => {
                proof {
                    lemma_lobby_map_absent(lobby_views(self.lobbies@), sender_lobby@);
                }
                return Err(Error::LobbyDoesNotExist { id: sender_lobby });
            },
        };
        let ghost views = lobby_views(self.lobbies@);
        let ghost found = self.lobbies@;
        proof {
            lemma_lobby_map_first(views, sender_lobby@, i as int);
        }
        let host = self.lobbies[i].host;
        let shown_sender = public_id(sender_id, host);
        let shown_dest = relay_target(dest_id, host);
        let envelope = WSMessagePass::Typed(
            ResponseType::Relay { sender_id: shown_sender, dest_id: shown_dest, message },
        );
        let sent = self.lobbies[i].broadcast(envelope);
        proof {
            let now = self.lobbies@[i as int]@;
            assert(lobby_views(self.lobbies@) =~= views.update(i as int, now));
            lemma_lobby_map_update(views, sender_lobby@, i as int, now);
            lemma_first_lobby_kept(found, self.lobbies@, sender_lobby@, i as int);
        }
        match sent {
            Ok(_) => {
                proof {
                    assert(self@.lobbies =~= old(self)@.with_broadcast(
                        sender_lobby@,
                        relay_envelope(sender_id, dest_id, host, message@),
                    ).lobbies);
                }
                Ok(())
            },
            Err(e) => {
                proof {
                    assert(self@.lobbies =~= old(self)@.lobbies);
                }
                Err(Error::ChannelSendError(e))
            },
        }
    }

    /// Tells the lobby of `peer_id`, if it is in one, that the peer is
    /// leaving. `None` when there was no lobby to tell; otherwise the
    /// outcome of the broadcast.
    pub fn announce_departure(&mut self, peer_id: i64) -> (r: Option<Result<(), Error>>)
        ensures
            announce_step(*old(self), *final(self), peer_id, r),
            old(self)@.wf() ==> final(self)@.wf(),
            old(self).distinct_lobbies() ==> final(self).distinct_lobbies(),
    {
        let lobby_id: String = match self.peers.get(&peer_id) {
            Some(p) => match &p.lobby {
                Some(l) => l.clone(),
                None => {
                    return None;
                },
            },
            None => {
                return None;
            },
        };
        let i = match self.find_lobby(&lobby_id) {
            Some(i) => i,
            None => {
                proof {
                    lemma_lobby_map_absent(lobby_views(self.lobbies@), lobby_id@);
                }
                return None;
            },
        };
        let ghost views = lobby_views(self.lobbies@);
        let ghost found = self.lobbies@;
        proof {
            lemma_lobby_map_first(views, lobby_id@, i as int);
        }
        let announcement = WSMessagePass::Typed(ResponseType::PeerDisconnect { id: peer_id });
        let sent = self.lobbies[i].broadcast(announcement);
        proof {
            let now = self.lobbies@[i as int]@;
            assert(lobby_views(self.lobbies@) =~= views.update(i as int, now));
            lemma_lobby_map_update(views, lobby_id@, i as int, now);
            lemma_first_lobby_kept(found, self.lobbies@, lobby_id@, i as int);
        }
        match sent {
            Ok(_) => {
                proof {
                    assert(self@.lobbies =~= old(self)@.with_broadcast(
                        lobby_id@,
                        disconnect_announcement(peer_id),
                    ).lobbies);
                }
                Some(Ok(()))
            },
            Err(e) => {
                proof {
                    assert(self@.lobbies =~= old(self)@.lobbies);
                }
                Some(Err(Error::ChannelSendError(e)))
            },
        }
    }

    /// A subscription to the channel of the lobby of `peer_id`, with the
    /// lobby's id and host; `None` when the peer is in no lobby. The lobby
    /// is marked as subscribed to.
    pub fn subscribe_peer(&mut self, peer_id: i64) -> (r: Option<
        (String, i64, tokio::sync::broadcast::Receiver<WSMessagePass>),
    >)
        ensures
            match old(self)@.current_lobby(peer_id) {
                None => r is None && final(self)@ == old(self)@,
                Some(lobby_id) => {
                    &&& r matches Some(s) && s.0@ == lobby_id && s.1 == old(
                        self,
                    )@.lobbies[lobby_id].host
                    &&& final(self)@ == old(self)@.with_subscriber(lobby_id)
                },
            },
            old(self)@.wf() ==> final(self)@.wf(),
            old(self).distinct_lobbies() ==> final(self).distinct_lobbies(),
    {
        let lobby_id: String = match self.peers.get(&peer_id) {
            Some(p) => match &p.lobby {
                Some(l) => l.clone(),
                None => {
                    return None;
                },
            },
            None => {
                return None;
            },
        };
        match self.find_lobby(&lobby_id) {
            Some(i) => {
                let ghost views = lobby_views(self.lobbies@);
                proof {
                    lemma_lobby_map_first(views, lobby_id@, i as int);
                }
                let receiver = self.lobbies[i].subscribe();
                proof {
                    let now = self.lobbies@[i as int]@;
                    assert(lobby_views(self.lobbies@) =~= views.update(i as int, now));
                    lemma_lobby_map_update(views, lobby_id@, i as int, now);
                    assert(self@.lobbies =~= old(self)@.with_subscriber(lobby_id@).lobbies);
                }
                Some((lobby_id, self.lobbies[i].host, receiver))
            },
            None => {
                proof {
                    lemma_missing_lobby(self.lobbies@, lobby_id@);
                }
                None
            },
        }
    }

    /// The position of the first `id` in `peers`.
    fn position_of(peers: &Vec<i64>, id: i64) -> (r: Option<usize>)
        ensures
            match r {
                Some(k) => peers@.index_of_first(id) == Some(k as int),
                None => peers@.index_of_first(id) is None,
            },
    {
        let mut k: usize = 0;
        while k < peers.len()
            invariant
                k <= peers@.len(),
                forall|j: int| 0 <= j < k ==> peers@[j] != id,
            decreases peers@.len() - k,
        {
            if peers[k] == id {
                proof {
                    peers@.index_of_first_ensures(id);
                }
                return Some(k);
            }
            k = k + 1;
        }
        proof {
            peers@.index_of_first_ensures(id);
        }
        None
    }

    /// Forgets a peer that left, and drops it from its lobby. When it was
    /// the lobby's host, every remaining member is forgotten too, and the
    /// frame that closes the connection is returned.
    pub fn disconnect_peer(&mut self, peer_id: i64) -> (farewell: Option<WSMessagePass>)
        ensures
            departure_step(old(self)@, final(self)@, peer_id, farewell is Some),
            farewell matches Some(f) ==> f@ == host_left_frame(),
            old(self)@.wf() ==> final(self)@.wf(),
            old(self).distinct_lobbies() ==> final(self).distinct_lobbies(),
    {
        let peer = match self.peers.remove(&peer_id) {
            Some(p) => p,
            None => {
                proof {
                    assert(self@.peers =~= old(self)@.peers);
                }
                return None;
            },
        };
        let ghost forgotten = self@;
        proof {
            assert(forgotten.peers =~= old(self)@.peers.remove(peer_id));
        }
        let lobby_id = match peer.lobby {
            Some(l) => l,
            None => {
                return None;
            },
        };
        let i = match self.find_lobby(&lobby_id) {
            Some(i) => i,
            None => {
                proof {
                    lemma_lobby_map_absent(lobby_views(self.lobbies@), lobby_id@);
                }
                return None;
            },
        };
        let ghost views = lobby_views(self.lobbies@);
        proof {
            lemma_lobby_map_first(views, lobby_id@, i as int);
        }
        let position = Self::position_of(&self.lobbies[i].peers, peer.id);
        proof {
            self.lobbies@[i as int].peers@.index_of_first_ensures(peer.id);
        }
        match position {
            Some(pos) => {
                self.lobbies[i].peers.remove(pos);
            },
            None => {},
        }
        let ghost rest = self.lobbies@[i as int].peers@;
        proof {
            let now = self.lobbies@[i as int]@;
            assert(now.id == views[i as int].id);
            assert(rest =~= views[i as int].peers.remove_value(peer.id));
            assert(lobby_views(self.lobbies@) =~= views.update(i as int, now));
            lemma_lobby_map_update(views, lobby_id@, i as int, now);
        }
        let ghost left = self@;
        let ghost left_lobbies = self.lobbies@;
        proof {
            assert(distinct_ids(views) ==> distinct_ids(lobby_views(left_lobbies)));
        }
        if self.lobbies[i].host == peer_id {
            let n = self.lobbies[i].peers.len();
            let mut k: usize = 0;
            while k < n
                invariant
                    0 <= i < self.lobbies@.len(),
                    n == rest.len(),
                    k <= n,
                    self.lobbies@[i as int].peers@ == rest,
                    self.lobbies@ == left_lobbies,
                    self@.peers == left.peers.remove_keys(rest.take(k as int).to_set()),
                decreases n - k,
            {
                let member = self.lobbies[i].peers[k];
                let ghost prev = self@.peers;
                self.peers.remove(&member);
                proof {
                    let done = rest.take(k as int);
                    let next = rest.take(k + 1);
                    assert(next =~= done.push(member));
                    assert forall|x: i64| next.contains(x) <==> done.contains(x) || x == member by {
                        if next.contains(x) {
                            let j = choose|j: int| 0 <= j < next.len() && next[j] == x;
                            if j < done.len() {
                                assert(done[j] == x);
                            }
                        }
                        if done.contains(x) {
                            let j = choose|j: int| 0 <= j < done.len() && done[j] == x;
                            assert(next[j] == x);
                        }
                        if x == member {
                            assert(next[k as int] == x);
                        }
                    }
                    assert(next.to_set() =~= done.to_set().insert(member));
                    assert(self@.peers =~= prev.remove(member));
                    assert(self@.peers =~= left.peers.remove_keys(next.to_set()));
                }
                k = k + 1;
            }
            proof {
                assert(rest.take(n as int) =~= rest);
            }
            Some(host_left_frame_message())
        } else {
            None
        }
    }
}

} // verus!
