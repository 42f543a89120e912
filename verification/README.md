# File Tunnel

An ephemeral bridge between a desktop upload field and files that live on a
phone. The desktop creates a tunnel and shows a pairing link; the phone exchanges
the one-time secret in that link for its own capability, declares files and
uploads them in resumable chunks; the desktop fetches them. Events announce each
step to subscribers that present a one-time ticket.

The library in `src/` is written in Verus: its functions carry contracts, and
Verus proves them. Only the two wrappers of the standard library's system clock
promise nothing.

- `protocol` — the capability matrix and a finite model of one tunnel.
- `declaration`, `limits` — what a tunnel and a file may ask for.
- `resumable`, `upload` — content ranges, upload buffers, upload requests between
  their head and their last byte.
- `capability`, `header`, `time`, `text` — tokens and their digests, header text,
  instants, and text as characters.
- `tunnel`, `state` — one tunnel, and all tunnels of a server with every request
  that it answers. Each request comes in two forms: one draws identifiers, tokens
  and instants itself, the other (its name ends in `_at`) takes them as arguments.
- `problem` — why requests are refused, and the problem documents that say so.
- `laws` — what holds over all inputs and all sequences of requests.

`app/` is the server around it: HTTP routes, JSON, locks, event channels and
sockets. Tunnels and file bytes live in memory: the schema of a persistent store
is compiled by the generic File Tunnel core and is not part of this project.
`FTNL_BIND` is its address and `FTNL_PORTAL_ORIGIN` the portal that
pairing links lead to.

What the library takes on trust is small and named: the wrappers around `uuid`,
`sha2`, `subtle`, `chrono`, `bytes` and the header values of `axum`, and the
system clock of the standard library. Each says above its contract what it claims.
