# arbos

The part of an Arbitrum node's state transition that serves Stylus programs, verified with Verus.

- `src/stylus/` is the request handler. A running program asks its host for storage, calls,
  creations, logs and account data; the handler decodes each request, names the host's next action,
  prices it, and forms the answer. `message.rs` holds the types, `protocol.rs` says what the handler
  does, `handler.rs` does it, and `laws.rs` states what holds of whole requests.
- `src/journal.rs` and `src/db.rs` keep the programs activated in a transaction and the memory pages
  that they hold, and recognise the code of Stylus programs.
- `src/gas.rs` takes gas prices from `revm` and states what they are.
- `src/wire.rs` and `src/spec_id.rs` are the byte format of requests and the hard forks.
- `app/` runs requests on a `revm` host and plugs the journal into a `revm` context.
