# tower_guard_rs

Application-layer security screening for `tower` services, powered by the
`guard-core-engine` detection engine, with its decisions verified in Verus.

- `src/` is the verified library: which views of a request are scanned, in which
  order the checks run, and how a request that fails one is answered.
  `src/laws.rs` states what holds of it as a whole. `src/engine.rs`,
  `src/stores.rs` and `src/transport.rs` hold what is taken on trust of
  `guard-core-engine`, `http` and `bytes`; two functions of std are specified
  where they are used.
- `app/` is the middleware itself: a `tower` layer and service that read the
  body, make the engine's detection calls and recover from their panics, call
  the wrapped service, and otherwise do what the library says.
- `tests/` runs the library with the real engine.
