# alleycat

Bridges between coding agents and a phone, and the checks that hold them to one protocol.

The library under `src/` is verified with Verus:

- `diff`, `diff_laws`, `divergence`, `transcript`, `report`, `schema`: compare what a bridge said
  with what the reference said, step by step, and say how they differ.
- `acp_client`, `acp_laws`, `lines`: the client's side of a conversation with an ACP agent.
- `probe`, `probe_laws`, `token`: a debug client for the daemon.
- `pair`, `qr`: what pairing prints.
- `json`, `key_set`, `text`, `text_map`: values, sets, strings and maps that the others are made of.

`app/` holds what reads, writes, spawns and waits. `tests/` runs the library.
