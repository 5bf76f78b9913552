# spsc

A fixed-capacity ring buffer for one producer and one consumer, with bulk read
and write handles, verified with Verus.

- `src/` is the verified library. The shared state is a value, `Inner`, that is
  handed to every operation. Each access to it is a function of its own, so the
  longer operations (push, pop, publication, waiting, leaving) can be run one
  access at a time and interleaved with those of the other half.
- `src/state.rs` is the model: everything that was ever sent, how much of it has
  been taken, and how many slots have been handed back. Machine counters are
  these counts, wrapped around.
- `src/laws.rs`, `src/handshake.rs` and `src/waiting.rs` hold what is proved of
  the channel as a whole: order, bounds, closing, the number of accesses an
  operation takes, and that a half that went to sleep is woken.
- `tests/` runs the library, single accesses of both halves in many orders among
  it.
- `app/` shares a channel between threads and tasks: locking, sleeping, wakers,
  dropping, and the error traits.

An interleaving is a sequence of accesses, each of which sees the effect of all
those before it. The tasks that an operation has to wake are left in the shared
state; `Inner::take_due` hands them to whoever runs it.

An `Inner` that goes out of scope drops what is still queued, oldest first. The
two halves do not refer to it, so one that leaves says so with `close`.
