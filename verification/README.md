# connection_pool

A connection pool for iroh whose decisions are verified with Verus.

The pool keeps connections to peers and hands out references to them. Requests for
a peer share one attempt to connect. A connection that nothing has used for the
idle timeout is closed, and when the pool is full, the connection that has been
unused longest makes way for a new one.

- `src/` is the verified library. `actor.rs` holds the pool: it takes an event and
  returns the actions that the event leads to. `attempt.rs` holds the steps of one
  attempt to connect, `counter.rs` the counting of references, `unused.rs` the order
  in which connections went unused. `model.rs` says what each event does to the
  pool, and `laws.rs` proves what this amounts to over many events.
- `app/` runs the pool: it waits for events, keeps time, dials, and performs the
  actions.
- `tests/` runs the library on concrete values.

What is trusted without proof: that reading the clock does no harm, and that the
types of outside crates named in `clock.rs` and `error.rs` can be carried around.
