use co_planet_signaling_server::error::Error;
use co_planet_signaling_server::lobby::{Lobby, Peer};
use co_planet_signaling_server::routing::{
    filter_for_peer, public_id, relay_target, writer_step, ChannelEvent, WriterAction,
};
use co_planet_signaling_server::state::{host_left_frame_message, AppState};
use co_planet_signaling_server::types::{
    ChannelCommunionMessage, LobbyId, RelayMessage, ResponseType, WSMessagePass,
};

fn typed(r: ResponseType) -> WSMessagePass {
    WSMessagePass::Typed(r)
}

fn offer(text: &str) -> RelayMessage {
    RelayMessage::Offer {
        offer: text.to_string(),
    }
}

fn peer_lobby(state: &AppState, id: i64) -> Option<String> {
    state.peers.get(&id).and_then(|p| p.lobby.clone())
}

fn is_cuid_of_at_most(id: &str, length: usize) -> bool {
    let chars: Vec<char> = id.chars().collect();
    (2..=length).contains(&chars.len())
        && chars[0].is_ascii_lowercase()
        && chars[1..]
            .iter()
            .all(|c| c.is_ascii_digit() || c.is_ascii_lowercase())
}

fn lobby<'a>(state: &'a AppState, id: &str) -> &'a Lobby {
    state.lobbies.iter().find(|l| l.id == id).expect("lobby exists")
}

/// A registry with peers 10 (host), 20 and 30 in one lobby, whose id is
/// returned; peer 40 is connected but in no lobby.
fn lobby_of_three(state: &mut AppState) -> String {
    state.register_peer(10);
    state.register_peer(20);
    state.register_peer(30);
    state.register_peer(40);
    let id = state.create_lobby(10, true);
    let _ = state.join_lobby(10, id.clone());
    let _ = state.join_lobby(20, id.clone());
    let _ = state.join_lobby(30, id.clone());
    id
}

#[test]
fn default_registry_is_empty() {
    let state = AppState::default();
    assert!(state.lobbies.is_empty());
    assert!(state.peers.is_empty());
}

#[test]
fn connect_peer_draws_an_id_in_range_and_registers_it() {
    let mut state = AppState::default();
    for _ in 0..50 {
        let id = state.connect_peer();
        assert!((2..2147483647).contains(&id));
        let p = state.peers.get(&id).expect("registered");
        assert_eq!(p.id, id);
        assert_eq!(p.lobby, None);
    }
}

#[test]
fn create_lobby_makes_an_empty_lobby_with_a_cuid() {
    let mut state = AppState::default();
    let id = state.create_lobby(77, false);
    assert!(is_cuid_of_at_most(&id, 8));
    let l = lobby(&state, &id);
    assert_eq!(l.id, id);
    assert_eq!(l.host, 77);
    assert!(!l.mesh);
    assert!(l.peers.is_empty());
    let other = state.create_lobby(78, true);
    assert_ne!(other, id);
    assert_eq!(state.lobbies.len(), 2);
}

#[test]
fn join_unknown_peer_is_refused() {
    let mut state = AppState::default();
    let id = state.create_lobby(1000, true);
    match state.join_lobby(5, id.clone()) {
        Err(Error::PeerDoesNotExist { id }) => assert_eq!(id, 5),
        other => panic!("unexpected {other:?}"),
    }
    assert!(state.peers.is_empty());
    assert!(lobby(&state, &id).peers.is_empty());
}

#[test]
fn join_unknown_lobby_still_records_the_request() {
    let mut state = AppState::default();
    state.register_peer(5);
    match state.join_lobby(5, "nowhere".to_string()) {
        Err(Error::LobbyDoesNotExist { id }) => assert_eq!(id, "nowhere"),
        other => panic!("unexpected {other:?}"),
    }
    assert_eq!(peer_lobby(&state, 5), Some("nowhere".to_string()));
}

#[test]
fn join_without_listener_adds_member_but_reports_channel_error() {
    let mut state = AppState::default();
    state.register_peer(5);
    let id = state.create_lobby(5, true);
    match state.join_lobby(5, id.clone()) {
        Err(e @ Error::ChannelSendError(_)) => {
            assert_eq!(e.to_message(), "channel error: channel closed");
            match e {
                Error::ChannelSendError(refused) => {
                    assert_eq!(refused, typed(ResponseType::PeerConnect { id: 5 }))
                }
                _ => unreachable!(),
            }
        }
        other => panic!("unexpected {other:?}"),
    }
    assert_eq!(lobby(&state, &id).peers, vec![5]);
    assert_eq!(peer_lobby(&state, 5), Some(id));
}

#[test]
fn join_with_listener_succeeds_and_announces_the_peer() {
    let mut state = AppState::default();
    state.register_peer(5);
    state.register_peer(6);
    let id = state.create_lobby(5, true);
    let _ = state.join_lobby(5, id.clone());
    let (lobby_id, host, mut rx) = state.subscribe_peer(5).expect("host is in the lobby");
    assert_eq!(lobby_id, id);
    assert_eq!(host, 5);
    assert!(state.join_lobby(6, id.clone()).is_ok());
    assert_eq!(lobby(&state, &id).peers, vec![5, 6]);
    assert_eq!(rx.try_recv().unwrap(), typed(ResponseType::PeerConnect { id: 6 }));
}

#[test]
fn subscribe_needs_an_existing_lobby() {
    let mut state = AppState::default();
    state.register_peer(5);
    assert!(state.subscribe_peer(5).is_none());
    assert!(state.subscribe_peer(6).is_none());
    let _ = state.join_lobby(5, "gone".to_string());
    assert!(state.subscribe_peer(5).is_none());
}

#[test]
fn relay_errors_name_the_peer_at_fault() {
    let mut state = AppState::default();
    let id = lobby_of_three(&mut state);
    state.register_peer(50);
    let _ = state.join_lobby(50, "elsewhere".to_string());
    match state.relay_message(99, 20, offer("o")) {
        Err(Error::PeerDoesNotExist { id }) => assert_eq!(id, 99),
        other => panic!("unexpected {other:?}"),
    }
    match state.relay_message(40, 20, offer("o")) {
        Err(Error::NoLobby { peer_id }) => assert_eq!(peer_id, 40),
        other => panic!("unexpected {other:?}"),
    }
    match state.relay_message(20, 99, offer("o")) {
        Err(Error::PeerDoesNotExist { id }) => assert_eq!(id, 99),
        other => panic!("unexpected {other:?}"),
    }
    match state.relay_message(20, 40, offer("o")) {
        Err(Error::NoLobby { peer_id }) => assert_eq!(peer_id, 40),
        other => panic!("unexpected {other:?}"),
    }
    match state.relay_message(20, 50, offer("o")) {
        Err(Error::LobbiesDoNotMatch {
            sender_lobby_id,
            dest_lobby_id,
        }) => {
            assert_eq!(sender_lobby_id, id);
            assert_eq!(dest_lobby_id, "elsewhere");
        }
        other => panic!("unexpected {other:?}"),
    }
    match state.relay_message(50, 1, offer("o")) {
        Err(Error::LobbyDoesNotExist { id }) => assert_eq!(id, "elsewhere"),
        other => panic!("unexpected {other:?}"),
    }
}

#[test]
fn relay_to_one_goes_to_the_host_and_host_is_shown_as_one() {
    let mut state = AppState::default();
    let id = lobby_of_three(&mut state);
    let (_, host, mut rx) = state.subscribe_peer(20).unwrap();
    assert_eq!(host, 10);
    state.relay_message(20, 1, offer("sdp")).unwrap();
    let sent = rx.try_recv().unwrap();
    assert_eq!(
        sent,
        typed(ResponseType::Relay {
            sender_id: 20,
            dest_id: 10,
            message: offer("sdp")
        })
    );
    state
        .relay_message(
            10,
            20,
            RelayMessage::Answer {
                answer: "a".to_string(),
            },
        )
        .unwrap();
    let back = rx.try_recv().unwrap();
    assert_eq!(
        back,
        typed(ResponseType::Relay {
            sender_id: 1,
            dest_id: 20,
            message: RelayMessage::Answer {
                answer: "a".to_string()
            }
        })
    );
    // only the addressee is handed a relay
    assert_eq!(filter_for_peer(sent.clone(), 10, 10), Some(sent.clone()));
    assert_eq!(filter_for_peer(sent.clone(), 20, 10), None);
    assert_eq!(filter_for_peer(sent.clone(), 30, 10), None);
    assert_eq!(filter_for_peer(back.clone(), 20, 10), Some(back.clone()));
    assert_eq!(filter_for_peer(back.clone(), 30, 10), None);
    assert_eq!(lobby(&state, &id).peers, vec![10, 20, 30]);
}

#[test]
fn relay_between_members_keeps_ids() {
    let mut state = AppState::default();
    lobby_of_three(&mut state);
    let (_, _, mut rx) = state.subscribe_peer(30).unwrap();
    state
        .relay_message(
            20,
            30,
            RelayMessage::Candidate {
                mid: "0".to_string(),
                index: 3,
                sdp: "c".to_string(),
            },
        )
        .unwrap();
    match rx.try_recv().unwrap() {
        WSMessagePass::Typed(ResponseType::Relay {
            sender_id, dest_id, ..
        }) => {
            assert_eq!(sender_id, 20);
            assert_eq!(dest_id, 30);
        }
        other => panic!("unexpected {other:?}"),
    }
}

#[test]
fn relay_without_listener_reports_channel_error() {
    let mut state = AppState::default();
    lobby_of_three(&mut state);
    match state.relay_message(10, 1, offer("x")) {
        Err(Error::ChannelSendError(refused)) => assert_eq!(
            refused,
            typed(ResponseType::Relay {
                sender_id: 1,
                dest_id: 10,
                message: offer("x")
            })
        ),
        other => panic!("unexpected {other:?}"),
    }
}

#[test]
fn filter_for_peer_rewrites_and_drops() {
    let host = 10;
    let connect = |id| typed(ResponseType::PeerConnect { id });
    let disconnect = |id| typed(ResponseType::PeerDisconnect { id });
    assert_eq!(filter_for_peer(connect(10), 20, host), Some(connect(1)));
    assert_eq!(filter_for_peer(connect(30), 20, host), Some(connect(30)));
    assert_eq!(filter_for_peer(connect(20), 20, host), None);
    assert_eq!(filter_for_peer(disconnect(10), 20, host), Some(disconnect(1)));
    assert_eq!(filter_for_peer(disconnect(30), 20, host), Some(disconnect(30)));
    assert_eq!(filter_for_peer(disconnect(20), 20, host), None);
    let id = typed(ResponseType::Id {
        id: 1,
        lobby_id: "x".to_string(),
        mesh: true,
    });
    assert_eq!(filter_for_peer(id, 20, host), None);
    let err = typed(ResponseType::Error {
        error: "e".to_string(),
    });
    assert_eq!(filter_for_peer(err, 20, host), None);
    let close = host_left_frame_message();
    assert_eq!(filter_for_peer(close.clone(), 20, host), Some(close));
}

#[test]
fn ids_as_the_lobby_sees_them() {
    assert_eq!(public_id(10, 10), 1);
    assert_eq!(public_id(11, 10), 11);
    assert_eq!(relay_target(1, 10), 10);
    assert_eq!(relay_target(11, 10), 11);
    // answering the shown sender reaches the sender
    for sender in [10, 11, 12345] {
        assert_eq!(relay_target(public_id(sender, 10), 10), sender);
    }
}

#[test]
fn join_request_create_welcomes_the_host() {
    let mut state = AppState::default();
    state.register_peer(7);
    let (id, replies) = state.join_request(7, LobbyId::Create { mesh: true });
    assert!(is_cuid_of_at_most(&id, 8));
    assert_eq!(
        replies,
        vec![
            typed(ResponseType::Error {
                error: "error joining lobby: channel error: channel closed".to_string()
            }),
            typed(ResponseType::Id {
                id: 1,
                lobby_id: id.clone(),
                mesh: true
            }),
        ]
    );
    assert_eq!(lobby(&state, &id).host, 7);
    assert_eq!(lobby(&state, &id).peers, vec![7]);
}

#[test]
fn join_request_existing_lists_other_members() {
    let mut state = AppState::default();
    let id = lobby_of_three(&mut state);
    state.register_peer(60);
    let (_, _, _rx) = state.subscribe_peer(10).unwrap();
    let (named, replies) = state.join_request(60, LobbyId::Existing { id: id.clone() });
    assert_eq!(named, id);
    assert_eq!(
        replies,
        vec![
            typed(ResponseType::Id {
                id: 60,
                lobby_id: id.clone(),
                mesh: true
            }),
            typed(ResponseType::PeerConnect { id: 1 }),
            typed(ResponseType::PeerConnect { id: 20 }),
            typed(ResponseType::PeerConnect { id: 30 }),
        ]
    );
}

#[test]
fn join_request_for_a_missing_lobby_only_reports_the_error() {
    let mut state = AppState::default();
    state.register_peer(60);
    let (named, replies) = state.join_request(
        60,
        LobbyId::Existing {
            id: "abc".to_string(),
        },
    );
    assert_eq!(named, "abc");
    assert_eq!(
        replies,
        vec![typed(ResponseType::Error {
            error: "error joining lobby: the lobby with the id of abc to join doesn't exist"
                .to_string()
        })]
    );
}

#[test]
fn relay_request_reports_errors_to_the_sender() {
    let mut state = AppState::default();
    let replies = state.relay_request(42, 7, offer("o"));
    assert_eq!(
        replies,
        vec![typed(ResponseType::Error {
            error: "error relaying message: the player with the id of 42 doesn't exist"
                .to_string()
        })]
    );
    let mut state = AppState::default();
    lobby_of_three(&mut state);
    let (_, _, _rx) = state.subscribe_peer(10).unwrap();
    assert!(state.relay_request(20, 1, offer("o")).is_empty());
}

#[test]
fn error_messages() {
    assert_eq!(
        Error::ServerSerialization("bad".to_string()).to_message(),
        "couldn't serialize json for response: bad"
    );
    assert_eq!(
        Error::LobbyDoesNotExist {
            id: "x1".to_string()
        }
        .to_message(),
        "the lobby with the id of x1 to join doesn't exist"
    );
    assert_eq!(
        Error::PeerDoesNotExist { id: -305 }.to_message(),
        "the player with the id of -305 doesn't exist"
    );
    assert_eq!(
        Error::PeerDoesNotExist { id: 0 }.to_message(),
        "the player with the id of 0 doesn't exist"
    );
    assert_eq!(
        Error::LobbiesDoNotMatch {
            sender_lobby_id: "a".to_string(),
            dest_lobby_id: "b".to_string()
        }
        .to_message(),
        "the player that you tried to relay to isn't in the lobby with the id of a, it's in b"
    );
    assert_eq!(
        Error::NoLobby {
            peer_id: 9223372036854775807
        }
        .to_message(),
        "the peer with the id of 9223372036854775807 has no lobby"
    );
    assert_eq!(
        Error::ChannelSendError(typed(ResponseType::PeerConnect { id: 3 })).to_message(),
        "channel error: channel closed"
    );
}

#[test]
fn member_leaving_is_dropped_from_its_lobby() {
    let mut state = AppState::default();
    let id = lobby_of_three(&mut state);
    assert_eq!(state.disconnect_peer(20), None);
    assert!(state.peers.get(&20).is_none());
    assert_eq!(lobby(&state, &id).peers, vec![10, 30]);
    assert!(state.peers.get(&30).is_some());
    assert_eq!(state.disconnect_peer(20), None);
}

#[test]
fn host_leaving_closes_and_forgets_the_lobby_members() {
    let mut state = AppState::default();
    let id = lobby_of_three(&mut state);
    let farewell = state.disconnect_peer(10).expect("host left");
    assert_eq!(
        farewell,
        WSMessagePass::Raw(ChannelCommunionMessage::Close {
            code: 1011,
            reason: "host disconnected".to_string()
        })
    );
    assert!(farewell.closes_connection());
    assert!(state.peers.get(&10).is_none());
    assert!(state.peers.get(&20).is_none());
    assert!(state.peers.get(&30).is_none());
    assert!(state.peers.get(&40).is_some());
    assert_eq!(lobby(&state, &id).peers, vec![20, 30]);
}

#[test]
fn leaving_removes_only_the_first_entry() {
    let mut state = AppState::default();
    state.register_peer(10);
    state.register_peer(20);
    let id = state.create_lobby(10, false);
    let _ = state.join_lobby(20, id.clone());
    let _ = state.join_lobby(20, id.clone());
    assert_eq!(lobby(&state, &id).peers, vec![20, 20]);
    assert_eq!(state.disconnect_peer(20), None);
    assert_eq!(lobby(&state, &id).peers, vec![20]);
}

#[test]
fn client_closing_announces_and_returns_the_close_frame() {
    let mut state = AppState::default();
    lobby_of_three(&mut state);
    let (_, _, mut rx) = state.subscribe_peer(10).unwrap();
    let (announced, frame) = state.client_closing(20);
    assert!(matches!(announced, Some(Ok(()))));
    assert_eq!(
        frame,
        WSMessagePass::Raw(ChannelCommunionMessage::Close {
            code: 1000,
            reason: "closing based on client request".to_string()
        })
    );
    assert!(frame.closes_connection());
    assert_eq!(
        rx.try_recv().unwrap(),
        typed(ResponseType::PeerDisconnect { id: 20 })
    );
    let (announced, _) = state.client_closing(40);
    assert!(announced.is_none());
}

#[test]
fn typed_messages_do_not_close() {
    let m: WSMessagePass = ResponseType::PeerConnect { id: 4 }.into();
    assert_eq!(m, typed(ResponseType::PeerConnect { id: 4 }));
    assert!(!m.closes_connection());
}

#[test]
fn lobbies_are_equal_by_id() {
    let a = Lobby::new("same".to_string(), 1, true, vec![]);
    let b = Lobby::new("same".to_string(), 2, false, vec![4]);
    let c = Lobby::new("other".to_string(), 1, true, vec![]);
    assert!(a == b);
    assert!(a != c);
    let peer = Peer {
        id: 3,
        lobby: None,
    };
    assert_eq!(peer.clone().id, 3);
}

#[test]
fn failed_relay_leaves_the_registry_unchanged() {
    let mut state = AppState::default();
    let id = lobby_of_three(&mut state);
    let snapshot = |s: &AppState| {
        let mut peers: Vec<(i64, i64, Option<String>)> = s
            .peers
            .iter()
            .map(|(k, p)| (*k, p.id, p.lobby.clone()))
            .collect();
        peers.sort();
        let lobbies: Vec<(String, i64, bool, Vec<i64>)> = s
            .lobbies
            .iter()
            .map(|l| (l.id.clone(), l.host, l.mesh, l.peers.clone()))
            .collect();
        (peers, lobbies)
    };
    let before = snapshot(&state);
    assert!(state.relay_message(20, 40, offer("x")).is_err());
    assert!(state.relay_message(20, 30, offer("x")).is_err());
    assert_eq!(snapshot(&state), before);
    assert_eq!(lobby(&state, &id).peers, vec![10, 20, 30]);
}

#[test]
fn joined_peer_is_the_newest_member_of_its_current_lobby() {
    let mut state = AppState::default();
    let id = lobby_of_three(&mut state);
    state.register_peer(70);
    let _ = state.join_lobby(70, id.clone());
    assert_eq!(lobby(&state, &id).peers.last(), Some(&70));
    let (lobby_id, host, _rx) = state.subscribe_peer(70).unwrap();
    assert_eq!(lobby_id, id);
    assert_eq!(host, 10);
}

#[test]
fn forgotten_members_are_told_they_do_not_exist() {
    let mut state = AppState::default();
    lobby_of_three(&mut state);
    assert!(state.disconnect_peer(10).is_some());
    let replies = state.relay_request(20, 30, offer("o"));
    assert_eq!(
        replies,
        vec![typed(ResponseType::Error {
            error: "error relaying message: the player with the id of 20 doesn't exist"
                .to_string()
        })]
    );
}

#[test]
fn creator_join_is_refused_then_relays_reach_the_host_once_subscribed() {
    let mut state = AppState::default();
    state.register_peer(5);
    state.register_peer(6);
    let id = state.create_lobby(5, false);
    assert!(matches!(
        state.join_lobby(5, id.clone()),
        Err(Error::ChannelSendError(_))
    ));
    let (_, _, mut host_rx) = state.subscribe_peer(5).unwrap();
    assert!(state.join_lobby(6, id.clone()).is_ok());
    assert_eq!(
        host_rx.try_recv().unwrap(),
        typed(ResponseType::PeerConnect { id: 6 })
    );
    state.relay_message(6, 1, offer("hi")).unwrap();
    let relayed = host_rx.try_recv().unwrap();
    assert_eq!(
        relayed,
        typed(ResponseType::Relay {
            sender_id: 6,
            dest_id: 5,
            message: offer("hi")
        })
    );
    assert_eq!(filter_for_peer(relayed.clone(), 5, 5), Some(relayed.clone()));
    assert_eq!(filter_for_peer(relayed, 6, 5), None);
}

#[test]
fn registry_and_lobbies_print_for_debugging() {
    let mut state = AppState::default();
    state.register_peer(5);
    let id = state.create_lobby(5, true);
    let text = format!("{:?}", state);
    assert!(text.contains(&id));
}

#[test]
fn writer_step_forwards_skips_and_resubscribes() {
    match writer_step(
        ChannelEvent::Message(typed(ResponseType::PeerConnect { id: 10 })),
        20,
        10,
    ) {
        WriterAction::Forward(m) => assert_eq!(m, typed(ResponseType::PeerConnect { id: 1 })),
        _ => panic!("expected a forward"),
    }
    assert!(matches!(
        writer_step(
            ChannelEvent::Message(typed(ResponseType::PeerConnect { id: 20 })),
            20,
            10
        ),
        WriterAction::Skip
    ));
    assert!(matches!(
        writer_step(ChannelEvent::Lagged(3), 20, 10),
        WriterAction::Skip
    ));
    assert!(matches!(
        writer_step(ChannelEvent::Closed, 20, 10),
        WriterAction::Resubscribe { wait_ms: 500 }
    ));
}

#[test]
fn departure_refused_hands_back_the_announcement() {
    let mut state = AppState::default();
    lobby_of_three(&mut state);
    match state.announce_departure(20) {
        Some(Err(Error::ChannelSendError(refused))) => {
            assert_eq!(refused, typed(ResponseType::PeerDisconnect { id: 20 }))
        }
        other => panic!("unexpected {other:?}"),
    }
}
