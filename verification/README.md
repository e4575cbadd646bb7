# agent_server

The event side of a WeChat agent server: an event bus with replay, the
pollers that turn changes in WeChat's databases into events, and the
websocket subscription protocol, with their contracts proved by Verus.

- `src/` is the verified library.
  - `events/`: the event envelope and JSON payloads, event ids (ULIDs),
    the bus (broadcast channel plus a ring of the latest events), and the
    pollers (messages, friend requests, contacts, media, session events).
  - `router/`: subscription filters, authorization, replay planning and the
    per-connection state machine (heartbeat, lag, close codes); media paths
    and content types.
  - `execution.rs`: the stopping rules of a plan's execution loop.
  - `config.rs`: settings and their defaults, read from given values.
  - `text.rs`, `str_map.rs`: string operations and an insertion-ordered map
    used by the above.
- `app/` is the server around it: environment, routes, the websocket I/O
  loop, the poller tasks and process calls. Verus does not see it.
- `tests/` runs the library on concrete values.
