# wispers_connect

The verified core of Wispers Connect: the HTTP proxy's request handling,
QUIC session keying, and node-state storage, proved with Verus.

## Layout

- `src/` — the library, verified by Verus.
  - `proxy.rs` — proxy targets (`http://<node>.wispers.link[:port]/path`),
    request parsing and header filtering, the request text sent to the
    remote node, error responses and the `FORWARD` exchange.
  - `flow.rs` — gathering a request head from a client, and the decisions
    of a client connection across reads, connects and forwards.
  - `http_parse.rs` — the request scanner (`httparse`), the text
    conversions of the standard library that the proxy relies on, and
    white-space trimming.
  - `quic.rs` — the TLS 1.3 pre-shared key (HKDF-SHA256) and both sides of
    the PSK exchange.
  - `storage.rs` — node state, the storage trait, the in-memory store, the
    file store's paths and file decisions, and the order in which a store's
    steps run.
  - `foreign.rs` — status codes shared with host applications and what the
    host-callback store makes of each status.
  - `p2p.rs` — peer connections over an ICE channel; the caller side seals
    what it sends with AES-256-GCM under the connection's shared secret.
  - `listing.rs`, `text.rs` — listing lines, and character-sequence helpers
    with exact specifications.
- `app/` — the I/O around the library: disk access for the file store, the
  C callbacks of the host store, and the proxy's sockets.
- `tests/` — tests of the library on concrete values.

Each `law_*` proof function states a property that holds across calls or
for every input. The contracts of the public functions state their results
exactly, over the spec functions next to them; where a result is an answer
of the ICE channel, the contract ties it to what the channel was given and
what it answered.
