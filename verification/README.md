# muninn-kernel

An in-memory microkernel that routes frames between subsystems, handlers and
subscribers, verified with Verus.

- `src/` is the kernel itself: frames, pipes, the registry of handlers, flow
  control, the router and the setup. Each function states in its contract what it
  returns and changes. The laws that span several functions are public proof
  functions, named `law_...`. Nothing in `src/` waits: where the kernel has to
  wait for a channel or a timer, a function says so, and another takes what came
  of the wait.
- `app/` runs the kernel on tokio: the tasks, the waiting, the sharing of state
  between tasks, and the serialized form of frames.
- `tests/` runs the library on real channels and tokens.

Where `src/` calls into tokio, tokio-util, uuid or the standard library beyond
what vstd specifies, the call stands behind a small item with a contract that is
trusted. `src/channel.rs` holds most of them; the others are in `src/stamp.rs`
(ids and the clock), `src/error.rs` (quoting) and `src/backpressure.rs`
(durations).
