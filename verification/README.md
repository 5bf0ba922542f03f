# streamguard_gateway

The decisions of the StreamGuard gateway, written in Verus: who is admitted,
which addresses a session holds, what leaves the gateway, and what is on disk
before a client is told anything.

- `src/tunnel.rs` keeps the flow table of the tunnel: which session a return
  packet belongs to, and what a connection may do before and after its ticket
  was verified.
- `src/v2/` is the admission plane. `address_pool` leases one IPv4 address and
  one IPv6 `/64` per session, durably; `admission` limits handshakes and redeems
  each ticket once; `listener` and `runtime` are the step machines that order the
  outside work; `config`, `paths` and `identity` validate what startup was given;
  `replay`, `secure_journal` and `persistence` say what is written, how, and when
  it counts.
- `app/` runs it: files, clocks, QUIC endpoints, tasks. It performs the step that
  the library names and hands the outcome back. `app/services.rs` lists the
  services that a binary supplies: ticket verification, wire codecs, the session
  map, the tunnel device.
- `tests/` holds the scenarios.

Contracts speak of models: `PoolModel` for the pool, `ReplayModel` for redeemed
tickets, maps and sequences elsewhere. What relates several calls stands in proof
functions whose names begin with `law_`; for the pool they are in
`src/v2/address_pool/laws.rs` and `durability.rs`.

Trusted: reading PEM (`rustls-pemfile`), SHA-256 (`ring`), and the contents of a
shared packet (`bytes`). Each is declared where it is used, with what is assumed
of it. Nothing is assumed of whether `rustls` takes a key for its chain: what
follows from either answer is proved.
