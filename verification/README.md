# packetcomm

A small client-registration and text-message protocol over UDP. Clients
send a server packed Cap'n Proto messages; the server's packet reader turns
each packet into a command for another thread: registering the client, or
showing a text message.

Layout:

- `src/` — the verified library.
  - `decimal.rs` — decimal text of port numbers (formatting and parsing).
  - `connstate.rs` — client addresses and the registry of clients.
  - `packet.rs` — the packets and their wire format: the root of the
    message is a list of texts, the packet's kind followed by its fields.
  - `capnp_wire.rs`, `channel.rs` — the trusted calls into `capnp` and into
    `std::sync::mpsc`; the channel ends that the library keeps record what
    was handed to them and taken from them.
  - `reader.rs`, `network.rs`, `writer.rs` — the server's packet reader and
    its commands, and what a client writes.
- `app/` — sockets, threads and printing around the library.
- `tests/` — tests of the library.
