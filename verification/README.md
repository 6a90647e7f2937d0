# ndraw

Server core of NDraw, a multiplayer drawing-and-guessing game, written in
Verus. The library in `src/` is verified; `app/` is the HTTP and WebSocket
server around it.

## Library (`src/`)

- `limit`, `ids`, `model`, `error`, `validate`: the version-2 wire protocol:
  identifiers, message types, limits and their validation.
- `codec`: binary framing (version byte, opcode, payload); payload bytes are
  produced and read by the caller's Postcard serializer.
- `canvas`, `guess`, `scoring`, `words`, `shuffle`, `time`: the
  authoritative canvas, guess normalization and closeness, score formula,
  the seeded word deck with its generator (every order it deals is a
  function of the seed and of the shuffles made before), and the
  millisecond clock.
- `game`: the deterministic game state machine (`Game`), its views, turn
  logic, roster changes, actions, and the laws that hold across them
  (`game::laws`).
- `room`: the decisions of one room actor: sessions and connection leases,
  joins and reconnects, bans, fanout of events to attached browsers, and
  lifecycle deadlines.
- `messages`, `metrics`, `catalogue`, `server`: user-facing error texts,
  Prometheus metrics, the word catalogue, and the server's settings, origin,
  rate-class, room-code and voice-token decisions, and what a connection does
  with each frame it receives.

Outside crates are reached through small trusted wrappers, each documented
where it is declared: `unicode-segmentation`, `unicode-normalization` and
`strsim` for text, `rand` for shuffling and room codes, `uuid` for client
tokens.

## Server (`app/`)

`app/main.rs` runs an Axum server. It owns the sockets, the clock, the
per-room Tokio tasks and the room directory, converts between the library's
types and their Serde forms (`app/wire`), and performs what the library's
functions decide. Word lists are read at start-up from `NDRAW_WORDS_DIR`
(default `data/`): `words-easy.txt`, `words-medium.txt`, `words-hard.txt`.
