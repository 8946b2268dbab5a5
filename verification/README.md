# lib — uTP packets and connection decisions, verified

The library reads and writes uTP packets and makes the decisions of the
connection ends; `app/` holds the sockets and streams that do the I/O.

- `src/utp/packet.rs`: the packet header, selective ACK bitmask, extension
  chain, packet and builder, with their wire format as spec functions and the
  round-trip laws of the format.
- `src/utp/utp_packet.rs`: the first, simpler packet layout.
- `src/utp/endian.rs`: big-endian numbers.
- `src/utp/legacy/`: the decisions of the socket and of the stream's
  receiving side (handshake, send window, taking in packets, reading).
- `src/utp/utp_type.rs`, `utp_types.rs`, `inter/`, `src/archive/`: packet
  kind and state enums.
- `src/utils/`: the clock, the random generator, I/O errors.
