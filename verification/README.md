# p2pshare

Files from one device to another, end-to-end encrypted: over the local network, through
routers by UDP hole punching, or through a relay that sees only ciphertext.

- `src/` is the protocol logic, verified with Verus: share codes and fingerprints,
  discovery messages, STUN, the choice of a path to the peer, the Noise XX handshake and
  the framing and encryption on top of it, the transfer with its resumption, and the
  pairing of clients at the relay.
- `app/` is the program around it: sockets, QUIC, the distributed hash table, files, the
  database of contacts, the command line, and the relay server (under the program name
  `p2pshare-relay`).
- `tests/` runs the library with its outside crates.

`src/transfer/assembly.rs` states what a transfer comes to: whatever the order in which
authentic chunks arrive, and from whatever chunks it is resumed, the output is the file.
