# nbio

Uni-directional and bi-directional nonblocking I/O, verified with [Verus](https://github.com/verus-lang/verus).

A `Session` encapsulates a connection or logical session, and is typically also `Publish`, `Receive`, or both. Partial
operations are reported as outcomes rather than as errors: `ReceiveOutcome::Idle`, `ReceiveOutcome::Buffered` and
`PublishOutcome::Incomplete` tell what is to be retried.

## Layout

- `src/` is the library. Every function states what it returns and changes, and Verus proves it.
  - `lib.rs`, `error.rs`, `mock.rs`: the traits, outcomes and errors, and a session for tests.
  - `buffer.rs`, `frame.rs`: a circular write buffer, and framing of binary sessions.
  - `http/`: requests, responses and client sessions of HTTP 1.x.
  - `websocket/`: frames, messages and the client handshake of WebSocket.
  - `tcp.rs`, `tls.rs`, `dns.rs`: the states of connections, handshakes and name resolution.
  - `liveness.rs`, `util.rs`, `time.rs`: heartbeats and liveness checks.
  - `compat.rs`, `crossbeam.rs`: conversions between usage patterns, and sessions over channels.
  - `aeron.rs`: the states of aeron publications and subscriptions.
- `tests/` runs the library against sessions in memory and against the outside crates.
- `app/` connects the library to sockets, TLS, name lookup and aeron.

## Specifications

The operations of a session are relations between the session before a call, the session after it, and the result. A
session that encapsulates another one states its relations over those of the encapsulated session. Operations that need a
socket or a handle are split into steps: one function says what is to be done, and another takes what came of it.

Calls into outside crates stand in small functions whose contracts are not proved. Each has a comment that names the outside
function and says what is claimed of it. Results that take pages to state have a name, and contracts speak of that name.
Of a result that depends on time, chance or other threads, contracts say that it is one which that call may give.
