# foxglove_webtransport

A WebTransport (QUIC/HTTP3) transport for live visualization: messages go to clients
zstd-compressed, over a reliable stream or, for chosen topics, as datagrams.

- `src/` is the library, verified with Verus. `src/ext/` declares what it believes of the crates
  that it calls; everything else is proved. `src/laws.rs` states what holds across modules.
- `app/` is the running side: QUIC endpoint, tasks, locks, logging and the C interface.
- `tests/` runs the library with the real crates.

## What goes over the wire

- Stream frame: opcode (1 byte: 1 text, 2 binary, 3 zstd-compressed binary), payload length
  (4 bytes, little-endian), payload. A client may announce at most 16 MiB.
- Datagram: channel (8 bytes), sequence number of the channel (4 bytes), flags (2 bytes, zero), all
  little-endian, then the zstd-compressed message.
- Client requests, as text frames: `{"op": "subscribe", "channels": [{"id": 1}]}` and
  `{"op": "unsubscribe", "channelIds": [1]}`.
