//! What the server does for one message of a connection: the decisions of
//! the reading side of a socket, each taking the registry to its next state
//! and returning the messages for the connection's own writer.

use vstd::prelude::*;

use crate::error::{error_message, ErrorView};
use crate::routing::{pass_views, welcome, welcome_messages};
use crate::state::{
    join_result,
    join_step,
    relay_result,
    relay_step,
    AppState,
    StateView,
    LOBBY_ID_LENGTH,
};
use crate::types::{
    ChannelCommunionMessage,
    LobbyId,
    PassView,
    RelayMessage,
    ResponseType,
    ResponseView,
    WSMessagePass,
};

verus! {

/// The registry from which a join request starts: for a request to create
/// a lobby, the registry with the new lobby `lobby_id`, hosted by the
/// requester.
pub open spec fn join_origin(
    v: StateView,
    peer_id: i64,
    request: LobbyId,
    lobby_id: Seq<char>,
) -> StateView {
    match request {
        LobbyId::Existing { .. } => v,
        LobbyId::Create { mesh } => v.with_new_lobby(lobby_id, peer_id, mesh),
    }
}

/// `lobby_id` is the lobby that `request` names: the given id, or a new id
/// of the length of the server's lobby ids.
pub open spec fn names_lobby(request: LobbyId, lobby_id: Seq<char>) -> bool {
    match request {
        LobbyId::Existing { id } => lobby_id == id@,
        LobbyId::Create { .. } => crate::state::cuid_shaped(lobby_id, LOBBY_ID_LENGTH as nat),
    }
}

/// The error message a client is sent when a request fails with `e`.
pub open spec fn error_reply(context: Seq<char>, e: ErrorView) -> PassView {
    PassView::Typed(ResponseView::Error { error: context + error_message(e) })
}

/// What the requester of a join is sent: the error, if the join failed,
/// then, if the lobby exists, its welcome.
pub open spec fn join_replies(
    res: Result<(), ErrorView>,
    after: StateView,
    peer_id: i64,
    lobby_id: Seq<char>,
) -> Seq<PassView> {
    let error = match res {
        Ok(()) => Seq::<PassView>::empty(),
        Err(e) => seq![error_reply("error joining lobby: "@, e)],
    };
    let welcomed = if after.lobbies.contains_key(lobby_id) {
        welcome(after.lobbies[lobby_id], lobby_id, peer_id)
    } else {
        Seq::<PassView>::empty()
    };
    error + welcomed
}

/// What the sender of a relay is sent: the error, if the relay failed.
pub open spec fn relay_replies(res: Result<(), ErrorView>) -> Seq<PassView> {
    match res {
        Ok(()) => Seq::empty(),
        Err(e) => seq![error_reply("error relaying message: "@, e)],
    }
}

/// The frame that closes a connection that the client asked to close.
pub open spec fn client_close_frame() -> PassView {
    PassView::Close { code: 1000, reason: "closing based on client request"@ }
}

/// An error message whose text is `context` followed by that of `e`.
fn error_message_for(context: &str, e: &crate::error::Error) -> (m: WSMessagePass)
    ensures
        m@ == error_reply(context@, e@),
{
    let mut text = String::new();
    text.append(context);
    let detail = e.to_message();
    text.append(detail.as_str());
    proof {
        assert(text@ =~= context@ + error_message(e@));
    }
    WSMessagePass::Typed(ResponseType::Error { error: text })
}

impl AppState {
    /// Handles a join request of `peer_id`: creates the lobby if asked to,
    /// joins it, and returns the lobby's id with the messages for the
    /// requester.
    pub fn join_request(&mut self, peer_id: i64, request: LobbyId) -> (r: (
        String,
        Vec<WSMessagePass>,
    ))
        ensures
            names_lobby(request, r.0@),
            ({
                let before = join_origin(old(self)@, peer_id, request, r.0@);
                let res = join_result(before, final(self)@, peer_id, r.0@);
                &&& join_step(before, final(self)@, peer_id, r.0@, res)
                &&& pass_views(r.1@) == join_replies(res, final(self)@, peer_id, r.0@)
            }),
            old(self)@.wf() ==> final(self)@.wf(),
            old(self).distinct_lobbies() ==> final(self).distinct_lobbies(),
    {
        let lobby_id = match request {
            LobbyId::Existing { id } => id,
            LobbyId::Create { mesh } => self.create_lobby(peer_id, mesh),
        };
        let ghost before = self@;
        let joined = self.join_lobby(peer_id, lobby_id.clone());
        let ghost res = crate::state::outcome(joined);
        proof {
            assert(res == join_result(before, self@, peer_id, lobby_id@));
        }
        let mut replies: Vec<WSMessagePass> = Vec::new();
        match joined {
            Ok(()) => {},
            Err(e) => {
                replies.push(error_message_for("error joining lobby: ", &e));
            },
        }
        let ghost head = pass_views(replies@);
        proof {
            assert(head =~= match res {
                Ok(()) => Seq::<PassView>::empty(),
                Err(e) => seq![error_reply("error joining lobby: "@, e)],
            });
        }
        match self.find_lobby(&lobby_id) {
            Some(i) => {
                let mut welcomed = welcome_messages(&self.lobbies[i], &lobby_id, peer_id);
                proof {
                    crate::state::lemma_found_lobby(self.lobbies@, lobby_id@, i as int);
                }
                let ghost tail = pass_views(welcomed@);
                replies.append(&mut welcomed);
                proof {
                    assert(pass_views(replies@) =~= head + tail);
                }
            },
            None => {
                proof {
                    crate::state::lemma_missing_lobby(self.lobbies@, lobby_id@);
                    assert(pass_views(replies@) =~= head + Seq::<PassView>::empty());
                }
            },
        }
        (lobby_id, replies)
    }

    /// Handles a relay request of `peer_id` to `dest_id` and returns the
    /// messages for the requester.
    pub fn relay_request(&mut self, peer_id: i64, dest_id: i64, message: RelayMessage) -> (replies:
        Vec<WSMessagePass>)
        ensures
            ({
                let res = relay_result(old(self)@, final(self)@, peer_id, dest_id, message@);
                &&& relay_step(old(self)@, final(self)@, peer_id, dest_id, message@, res)
                &&& pass_views(replies@) == relay_replies(res)
            }),
            old(self)@.wf() ==> final(self)@.wf(),
            old(self).distinct_lobbies() ==> final(self).distinct_lobbies(),
    {
        let ghost relayed = message@;
        let sent = self.relay_message(peer_id, dest_id, message);
        proof {
            assert(crate::state::outcome(sent) == relay_result(old(self)@, self@, peer_id, dest_id, relayed));
        }
        let mut replies: Vec<WSMessagePass> = Vec::new();
        match sent {
            Ok(()) => {},
            Err(e) => {
                replies.push(error_message_for("error relaying message: ", &e));
            },
        }
        proof {
            assert(pass_views(replies@) =~= relay_replies(
                relay_result(old(self)@, self@, peer_id, dest_id, relayed),
            ));
        }
        replies
    }

    /// Handles a client's request to close its connection: its lobby is
    /// told that it leaves (see [`AppState::announce_departure`]), and the
    /// frame that closes the connection is returned.
    pub fn client_closing(&mut self, peer_id: i64) -> (r: (
        Option<Result<(), crate::error::Error>>,
        WSMessagePass,
    ))
        ensures
            match old(self)@.current_lobby(peer_id) {
                None => r.0 is None && final(self)@ == old(self)@,
                Some(lobby_id) => {
                    &&& r.0 is Some
                    &&& r.0->0 is Ok ==> final(self)@ == old(self)@.with_broadcast(
                        lobby_id,
                        crate::state::disconnect_announcement(peer_id),
                    )
                    &&& r.0->0 is Err ==> r.0->0->Err_0@ == (ErrorView::ChannelSendError {
                        refused: crate::state::disconnect_announcement(peer_id),
                    }) && final(self)@ == old(self)@
                },
            },
            crate::state::announce_step(*old(self), *final(self), peer_id, r.0),
            r.1@ == client_close_frame(),
            old(self)@.wf() ==> final(self)@.wf(),
            old(self).distinct_lobbies() ==> final(self).distinct_lobbies(),
    {
        let announced = self.announce_departure(peer_id);
        let mut reason = String::new();
        reason.append("closing based on client request");
        proof {
            assert(reason@ =~= "closing based on client request"@);
        }
        (announced, WSMessagePass::Raw(ChannelCommunionMessage::Close { code: 1000, reason }))
    }
}

} // verus!
