# jrok

A distributed tunnel server: agents behind NATs connect over a WebSocket,
register a subdomain, and the servers of a cluster forward HTTP requests
and TCP connections to them, redirecting to one another when an agent is on
another server. One server leads the cluster through a lease kept in the
shared database.

## Layout

- `src/` is the verified library, checked by Verus:
  - `stun`, `nat_traversal`: the STUN wire format (binding requests,
    MAPPED-ADDRESS and XOR-MAPPED-ADDRESS), public-endpoint discovery and
    NAT detection as step functions over the replies received so far, and
    hole-punch planning;
  - `relay`: connection tracking and the relay used when no direct path
    exists;
  - `agent`, `session`, `tunnel`, `tcp`, `client`: the agent registry, what
    the server does with each agent message, request routing, TCP tunnels
    and port allocation, and the agent's side of registration;
  - `cluster`: leader election decisions;
  - `config`, `db`, `error`, `proto`: settings, the stored records, errors
    and messages;
  - `table`, `text`, `codec`: a string-keyed table, number and address
    texts, and Base64/HMAC through the `base64`, `hmac` and `sha2` crates.
- Why `table` and not `HashMap<String, _>`: vstd specifies `HashMap` in
  terms of its keys' views, but with `String` keys its operations could not
  be proved to do what they do (not even that one `insert` into an empty
  map gives length 1), so the library keeps its string-keyed maps in a
  vector of entries whose keys are kept distinct by a type invariant, and
  views it as a `Map`.
- `app/` is the server program around it: HTTP and WebSocket endpoints
  (axum), the database (libsql), the clock, sockets, and the JSON forms of
  messages (serde).
- `tests/` exercises the library.
