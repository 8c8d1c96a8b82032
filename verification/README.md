# psyk

Networking plumbing for turn-based game servers, verified with Verus.

- `src/` is the verified library: the frame buffer contract (`buffer`), the
  JSON and bincode codecs around serde (`codec`), the event vocabulary
  between clients, servers and games (`client`, `server`, `event`, `game`,
  `address`), the client table (`registry`) and the decision logic of the
  example arithmetic server (`math`).
- `app/` is the runnable part: TCP server and client threads on
  tokio-core, length-delimited framing, the serde-derived wire copies of the
  library's types, and the arithmetic server's event loop.
- `tests/` exercises the library with the real serde, bincode, bytes and
  futures crates.
