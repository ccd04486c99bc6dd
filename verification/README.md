# clawmesh

A mesh of peer agents: who is there, who may speak, what rooms hold, who plays with
whom, and how meshes reach each other. The library is verified with Verus; the
gateway around it speaks HTTP.

## Layout

- `src/` is the library. Each part has a view, a plain mathematical value, and every
  operation says which view and which answer it leaves behind.
  - `room_state`: vector clocks and replicated room state, with deltas and snapshots.
  - `discovery`, `gossip`: the registry of peers, and how registries catch up.
  - `room`, `matchmaking`, `federation`, `relay`, `signal`: rooms, matches, links to
    other meshes, and signaling.
  - `crypto`, `auth`, `channel`: identities, mutual authentication, encrypted channels.
  - `node`: all of these in one participant.
  - `gateway`, `endpoints`: what the gateway makes of envelopes and requests.
  - `table`, `text`, `time`, `double`, `json`, `events`, `queue`, `ids`: what the parts
    are built from.
- `app/` is the gateway program: sockets, JSON, logging, and sends that wait.
- `tests/` runs the library.

Laws that relate several operations are public proof functions beside the operations
they speak of.

## What is taken on trust

Calls into `ring`, `base64`, `chrono`, `uuid`, `tokio` and `serde_json` stand behind
small functions whose contracts are believed. Each names the call and says what is
claimed of it. What depends on the clock, on chance or on who listens is left open;
beside each operation that reads the clock or draws an id stands one that takes the
reading as an argument.
