# chire

A small in-memory key-value server: clients send one command per line
(`set`, `get`, `del`, `expire`, `getall`, `ping`, `echo`, `help`, `quit`),
entries can be given an expiry time, and a periodic clean-up removes the
entries whose time has passed.

- `src/` is the library. Verified with Verus: the store and its invariant
  (`store.rs`), entries (`types.rs`), the clean-up (`cleaner.rs`), the
  line protocol as a step function from an event to the actions a session
  performs (`protocol.rs`), character-level text handling (`text.rs`), and
  properties that span several requests (`laws.rs`). `clock.rs` holds no
  verified code: it declares tokio's `Instant` and the two trusted wrappers
  around tokio's `Instant::checked_add` and its `Debug`.
- `app/` is the server around it: the TCP listener, the sessions' reads and
  writes, the database files, and the clean-up timer, on tokio.
- `tests/` runs the library on concrete inputs.

Times are nanoseconds on the server's own clock, counted from its start;
an expiry time also keeps the text that tokio's `{:?}` shows for it, which is
what `get` and `getall` print.

The dictionary is a vector of key and entry pairs in which no key occurs
twice, rather than a `HashMap<String, _>`: vstd's specification of
`HashMap` proves little with `String` keys, and its `StringHashMap` offers
no way to walk the entries, which `getall` and the clean-up need. `getall`
therefore lists entries in the store's own order, where a hash map would
list them in an arbitrary one.
