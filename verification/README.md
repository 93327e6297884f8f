# Distributed routing, verified

A routing node keeps a replicated table of service routes. Each write carries a
version; a node takes in a write only when it is newer than what it holds for
the service, and a deletion leaves a tombstone so that older writes cannot
bring the route back. Nodes recover route state from their peers at start-up
and check each other's health. A write made at a node takes the version after
the newest the node knows for that service, its own counter included, so a
local write always outranks what it replaces.

Layout:

- `src/` is the library, verified with Verus:
  - `state.rs`: route states, the route table (a listing with no repeated
    names, viewed as a map) and the state of a node. The table is not a
    `std::collections::HashMap<String, _>`: vstd specifies `HashMap` only for
    key types that meet its `obeys_key_model`, which vstd establishes for
    integer and `bool` keys and not for `String`, and this crate assumes
    nothing, so no lookup in such a map could be proved. vstd's own
    `StringHashMap` offers lookups but no way to walk the entries, which the
    listings and state transfer need;
  - `routing.rs`: listing, creating and deleting routes at a node;
  - `replication.rs`: taking in route writes and deletions from peers;
  - `recovery.rs`: merging a peer's state at start-up;
  - `failure_detection.rs`, `membership.rs`: the cluster and its health;
  - `api.rs`: health, membership and state answers;
  - `text.rs`: service-name trimming (Unicode White_Space, as `str::trim`
    documents it) and node names;
  - `laws.rs`: properties that span operations (stale writes, tombstones,
    order independence, recovery).
- `app/` is the HTTP server around it (axum, tokio, reqwest): it holds the
  node's state behind a lock, sends what the library decides to send, and
  converts to and from JSON.
- `tests/` exercises the library on concrete values.
