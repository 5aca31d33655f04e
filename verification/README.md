# flare_core

Connection management for a realtime messaging server, written in Verus.
The library's own functions in `src/` carry `requires`/`ensures` contracts,
over mathematical models (maps, sequences, sets) of the data, that Verus
proves. A few small trusted functions marked `#[verifier::external_body]`
stand at the edge: the clock readings, `char::is_alphanumeric`,
`String::from_utf8` and the `DashMap` operations of the authenticated
connection table. Verus believes their contracts without proof; the clock
readings have none.

## Layout

- `src/` — the verified library:
  - identifiers, byte and hex helpers (`utils`, `strings`), errors (`error`);
  - the frame model and its constructors (`protocol`), CONNECT negotiation
    and the CONNECT_ACK answer (`negotiation`), server configuration
    (`config`) and builders (`builder`);
  - the connection registry with its user index (`connection`, `registry`,
    `manager`, `keyed`), fan-out planning (`fanout`), inbound routing
    (`inbound`), frame dispatch and system-command handling (`wrapper`),
    per-connection write queues (`write_queue`);
  - devices and device conflicts (`device`, `device_manager`, `conflict`);
  - sessions and tokens (`session`), authentication state (`auth`,
    `auth_connections`, `auth_manager`, `auth_handler`);
  - user-grouped connection managers (`user_connections`, `user_based`),
    heartbeat tracking (`heartbeat`, `heartbeat_manager`), message-handler
    routing (`message_handler`), event plumbing (`events`, `adapter`) and
    counters (`stats`).
- `tests/` — tests run against the compiled library.
- `app/` — runtime glue that Verus does not see: process-wide id counters,
  the serde form of the configuration, and the asynchronous authenticator
  interface.

Each module that models state exposes its view through `closed spec`
functions (for example `ConnectionManager::conns` and `users`) and a
well-formedness predicate `wf`; the public proof functions named `lemma_*`
state the properties that hold across operations.
