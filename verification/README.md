# notifiapp-transport

The transport layer of the notifiapp services: an encrypted WebSocket transport with
reconnection, and an HTTP+JSON+SSE transport to fall back on.

- `src/` is the library. It decides and computes, and is verified with Verus: each function says
  in its contract what it returns or changes, and the `law_*` proof functions state what holds
  across functions. It does no I/O. Its state machines (`ws::client::connection_loop`,
  `ws::client::failover`, `ws::server::accept`, `ws::server::session`) take events and return
  actions.
- `app/` is ordinary Rust around it: sockets, timers, channels and tasks. It carries the actions
  out and reports the events.
- `tests/` holds the library's tests. They connect a client and a server in memory, with the real
  cipher and codec.

What the library relies on from other crates stands in the functions marked
`#[verifier::external_body]` or `assume_specification`: `noise` (snow), `wire` (postcard),
`address` (url), `ids` (uuid), `ws::client::pending` (dashmap), `http::client` (reqwest), and for
parts of the standard library `text`, `runtime` and `http::sse`.
