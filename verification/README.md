# co_planet_signaling_server

A WebRTC signalling server: clients connect over a websocket, create or
join lobbies, learn about the other members, and relay offers, answers and
ICE candidates to each other through the server. Inside a lobby the host is
always addressed as peer 1.

- `src/` is the verified state machine: the registry of lobbies and peers
  (`state`), the decisions taken for each client message (`session`), the
  per-member routing of lobby broadcasts (`routing`), the messages and their
  views (`types`), the errors and their texts (`error`), lobbies and peers
  (`lobby`), the properties that span operations (`laws`), and the trusted
  wrappers around tokio, rand and cuid2 (`outside`).
- `app/` is the server binary: axum websocket handling, JSON through serde,
  and the tasks of each connection, which ask the library for every decision.
