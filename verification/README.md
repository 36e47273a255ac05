# erlang_actors_rust

Erlang-style actors, supervision trees and monitors on tokio, with the decisions
verified by Verus.

- `src/` is the library. It holds what an actor system decides: what `tell` and
  `ask` answer, in which order an actor's callbacks run, which children a
  supervisor restarts after a failure and when it gives up, and when a heartbeat
  monitor reports an actor down. Every function has a contract, and the
  properties that span functions are public proof functions named `law_*`.
- `app/` is the runtime around it: tokio tasks, channels, timers and tracing. It
  reports how each wait ended and carries out what the library decides.
- `tests/` runs the library, also against real tokio tasks.

Points worth knowing:

- A supervisor gives every start of a child an instance number. The late report
  of an instance that was aborted and replaced is ignored.
- A temporary child is never restarted. When the failure of a sibling reaches it,
  it is stopped.
- A supervisor that exceeds its restart limit ends its task with a panic, so
  that the supervisor above it sees a failure and restarts the whole subtree.
- The address that an actor has of itself does not keep its mailbox open: when
  all other addresses are dropped, the actor stops.
- The `stopping` callback runs once in the life of an actor: when the mailbox has
  closed, or when the task is torn down before that.
- The deadline of an `ask` covers the wait for room in the mailbox as well as the
  wait for the reply.
- Dropping a `Monitor` cancels it.
