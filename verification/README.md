# zelda_server

The game logic of a Lurk MUD server, verified with Verus.

- `src/protocol/` — the Lurk wire format: packet kinds and error codes,
  character flags, each packet's bytes and how they are read back, the
  framing of a client's byte stream (`client.rs`), and a hex dump of packet
  bytes (`pcap.rs`).
- `src/logic/` — the game: the map of rooms, players and monsters, the
  handlers for each packet a client sends and for the operator's console
  commands, and the dispatcher that turns one event into the next state and
  the outputs to perform (`server.rs`). `properties.rs` and `membership.rs` hold
  laws that span several handlers; `membership.rs` is about which room lists
  name which players.
- `app/` — the program around the library: configuration from the
  environment, the map file, sockets and threads, and the console.
- `tests/` — tests of the library on concrete values.
