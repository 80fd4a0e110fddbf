# nexus

The nexus daemon speaks nexus text to its clients and signal frames to
criome. This crate holds its logic as a Verus-verified library; the process
around it (sockets, actors, the one-shot binaries) is in `app/`.

## Layout

- `src/text.rs`, `src/lexer.rs` — the token grammar of nexus text as spec
  functions, and a lexer proved against them.
- `src/model.rs` — the request/reply vocabulary (nodes, edges, graphs,
  queries, outcomes, diagnostics, handshakes).
- `src/parser.rs` — `Parser`: text to `Assert` requests, proved against a
  spec grammar; `src/roundtrip.rs` proves that an `Assert` request's
  canonical text parses back to the same request.
- `src/parse.rs` — `QueryParser`: piped `(| Kind ... |)` queries.
- `src/encode.rs`, `src/renderer.rs` — `Renderer`: replies to text, one
  expression per line.
- `src/error.rs` — the error type, its text and its diagnostic code.
- `src/criome_link.rs` — the criome wire framing (4-byte big-endian length
  prefix) and the handshake decisions.
- `src/connection.rs` — `Shuttle`: the per-connection state machine that
  pairs replies with requests by position.
- `src/client_msg/`, `src/cli_msg/` — the client protocol frames, archived
  with rkyv through `src/archive.rs`; fresh request ids from
  `src/entropy.rs`.
