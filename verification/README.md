# coresplitter

A MeshCore client multiplexer with a cache: it speaks the companion
protocol to one physical radio and serves many companion clients over TCP.
Clients are answered from the cache where possible; every other command goes
through one FIFO to the radio, one at a time, and the radio's reply is routed
back to the client that asked.

The decisions are a verified library (`src/`, checked by Verus); the program
around it (`app/`) does the I/O.

## Layout

- `src/protocol/` – frames (`frame.rs`, with the byte buffer of the `bytes`
  crate behind `buffer.rs`), little-endian fields (`wire.rs`), and the
  decoding of command and response payloads for the event log (`decode.rs`).
- `src/multiplexer/` – the configuration (`mod.rs`), the router
  (`router.rs`): cache, queue, request in flight, delivery ACKs, echoes,
  timeouts; the frames it writes itself (`reply.rs`); the event log line
  (`event.rs`); and what holds across its decisions (`laws.rs`,
  `pacing.rs`, and `reachable.rs` for what holds in every state it
  reaches).
- `src/node/` – the records the store keeps (`state.rs`) and the node
  identity (`identity.rs`).
- `src/cli.rs`, `src/frontend.rs`, `src/text.rs` – options, client ids, and
  text from bytes.
- `app/` – the program: argument parsing, logging, the TCP and serial links
  to the radio, the TCP server for clients, the SQLite store, and the loop
  that feeds events to the router and carries out its actions.
- `tests/` – tests of the library.

Each public function of the router states its effect exactly, over a model
of its state (`CoreView`) and of its actions (`ActionView`); the laws are
proof functions over those models.
