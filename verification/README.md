# runtime

The core of a structured-concurrency runtime for service-oriented async Rust
applications, verified with Verus.

- `src/` is the library: registration and ordering of services, readiness,
  shutdown, supervision and restart policies, shared state and topics, resource
  handles, and streams that end at shutdown. Its functions carry contracts, and
  the laws that relate them are the proof functions named `law_*`.
- `tests/` runs the library with tokio.
- `app/` puts it to work on tokio: tasks, timers, signals and logging, with the
  library's state behind locks so that several tasks can share it.

## Lifecycle

1. `RuntimeBuilder` collects services and their declared dependencies (by name).
   Duplicate names are rejected immediately.
2. `start_services` validates the dependency graph (unknown deps, self-loops,
   cycles) and puts services in topological order.
3. A `ServiceTask` says what a service's task waits for before the service runs:
   the restart backoff, if any, then the readiness of each dependency.
4. `supervision_step` says what follows when a service exits or fails: nothing, a
   restart after a backoff, or the end of the run.
5. On shutdown (explicit, signal, or a service error) the root token is cancelled,
   and with it every service's. `drain_outcome` and `run_outcome` say what the run
   comes to.

## Accounts

What is known of something that several handles share stands in one place: a
`CellAccount` for the handles of a `State`, a `TopicAccount` for those of a `Topic`, a
`UsageMap` for those to a resource. Whoever acts through a handle passes it, shared to
look and exclusively to change, so that a contract covers what was done through every
other handle too. An account holds nothing at run time beyond what its own functions
need; to share a handle between tasks, put its account behind a lock, as `app/` does.

An account has how many subscribers or handles were made and not released, which is the
most that there can be: they can also be dropped without it. Functions whose outcome
depends on how many are alive take those that are at hand as `beside`, and promise what
follows from their being there. Where all that are on account are shown, that is all
there is to know.

## What is trusted

The calls into `tokio`, `tokio-util`, `fastrand` and a few functions of `std` stand
in functions marked `external_body`, each with what its documentation or source gives
as its contract. Where what is known of a value has to be kept beside it, because the
value is opaque, it is kept in a type of its own whose fields nothing else reaches:
tokens in `src/cancel.rs`, channels in `src/channel/`, shared ownership in
`src/owner.rs`.
