# skycurrent

Messaging between processes and webpages: payloads of any size, each with a small
header, broadcast to every participant, and a message stream in which every consumer
visits the unclaimed messages in order of arrival and may claim one for itself.

`src/` is the library, verified with Verus:

- `queue` — the multi-consumer message queue (`LinkMessageQueue`, `MessageConsumer`,
  `NextMessage`) and the laws it keeps: messages are visited in arrival order, none is
  visited twice or skipped while unclaimed, and a claim is exclusive.
- `backing::ws_gateway` — the websocket gateway's wire format (`<payload><header size,
  8 bytes little-endian>`), its origin policy (pages from `http://127.0.0.1` or
  `http://localhost` on any port, pages opened from a local file, whose origin is
  `null`, and clients that send no origin), and its channels, each with a record of
  what went through it.
- `backing::wait_inbox` — the channel on which the backings report that their
  `wait_stream` returned.
- `backing::combined` — the runtime over all backings: which backing has precedence
  for receiving, which are blocked in `wait_stream`, what a receive call does with
  each answer of a backing, and sending.
- `backing::common`, `flags`, `hasher`, `capi` — shared types, the `init` flags, the
  identity hasher, and the types and handler bookkeeping of the C interface.

`app/` holds what runs around it: the process-wide state, the websocket server, the
async and blocking calls, and the C interfaces.
