# gnome

The networking and bookkeeping layer of a gnome: a peer that joins swarms,
finds its neighbors over UDP and TCP, punches through NATs, and seals every
datagram with a session key. The library in `src/` is written in Verus; each
function carries a contract, and the laws that tie functions together are
proof functions beside them.

## Layout

- `src/data_conversion.rs` — the wire formats of swarm messages, casts,
  neighbor requests and responses, and network settings, with the laws that a
  read gives back what a write wrote.
- `src/messages.rs`, `src/neighbor.rs` — the message and neighbor types those
  formats carry.
- `src/crypto.rs` — RSA keys (through the `rsa` crate), the AES-256-GCM
  session key (through `aes-gcm`), and signatures over swarm times.
- `src/manager.rs` — the manager's book of neighboring swarms and gnomes, swarm
  ids, and the decisions taken on them.
- `src/networking/` — NAT kinds and port allocation rules, STUN messages,
  datagram headers and send budgets, TCP framing, hole punching, the client and
  server handshakes, subscriptions and the token dispenser's accounts.
- `app/` — the I/O around the library: key files, STUN probes over UDP, the
  token dispenser's timer loop.
- `tests/` — tests of the library on concrete values.
