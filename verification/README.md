# rustmesh

A peer-to-peer mesh node, written in Verus.

`src/` is the verified library:

- `message` — the messages nodes exchange and their wire form (a `u32` tag,
  then the fields; texts and byte strings length-prefixed), written and read
  with `wincode`; decoding what encoding produced gives the message back.
- `wire` — the field encodings and the `wincode` calls behind them.
- `identity` — ed25519 identities and the text a node is known by.
- `peers` — the table of known peers, one entry per identity.
- `config` — node settings and their builders.
- `mesh` — the settings of the network behaviour, what a node does when peers
  are discovered, and its heartbeat greeting.
- `service` — mDNS announcement, handling of resolved services, and the
  connection greeting.
- `error` — the library's errors and their messages.

`app/` is the node program around it: the libp2p swarm and its event loop,
QUIC endpoints, mDNS, UDP links, logging and configuration files.
