//! Signalling server for WebRTC lobbies: peers join lobbies over a
//! websocket, learn about each other and relay offers, answers and ICE
//! candidates through the server.
//!
//! This crate holds the state machine of the server: the lobby and peer
//! registry, the rules that decide what each request does, and the
//! per-peer routing of lobby broadcasts. The socket plumbing lives in the
//! binary around it.

pub mod error;
pub mod laws;
pub mod lobby;
pub mod outside;
pub mod routing;
pub mod session;
pub mod state;
pub mod types;

pub use crate::error::Error;
pub use crate::lobby::{Lobby, Peer};
pub use crate::state::AppState;
pub use crate::types::{
    ChannelCommunionMessage, LobbyId, RelayMessage, RequestType, ResponseType, WSMessagePass,
};
