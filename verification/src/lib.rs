//! The verified core of a structured-concurrency runtime for service-oriented async
//! applications. It provides:
//!
//! - [`Runtime`] + [`RuntimeBuilder`]: services are registered with the services
//!   they depend on, and are started in topological order.
//! - [`RuntimeHandle`] + [`ServiceContext`]: the shutdown state and the readiness of
//!   services, and cancellation through a tree of
//!   [`CancellationToken`](tokio_util::sync::CancellationToken)s.
//! - [`runtime::supervisor`]: what follows when a service exits or fails, under its
//!   [`OnError`] policy (`ShutdownRuntime` | `Restart` | `Ignore`).
//! - [`runtime::task`]: what a service waits for before it runs, first a restart
//!   backoff and then the readiness of each declared dependency.
//! - [`Topic`]: typed publish-subscribe on top of [`tokio::sync::broadcast`]. For
//!   *delta* streams where late subscribers see only new events.
//! - [`State`]: snapshot primitive on top of [`tokio::sync::watch`]. For *current
//!   value* where new subscribers immediately see the latest.
//! - [`ResourceHandle`]: an owning, usage-tracked handle for sharing resources
//!   between services, with diagnostics for references that outlive shutdown.
//! - [`ShutdownStream`]: a stream adapter that ends when an associated future fires.
//!
//! What these promise their callers is stated and proved in [`laws`].
//!
//! Tasks, timers and signals are not in this crate: its functions say what to do
//! next, and are told what came of it. Whatever several tasks share is changed
//! through `&mut` here, so that a contract can say what the change is; put it behind
//! a lock to share it. For a [`Topic`] or a [`State`], whose handles can be cloned, that
//! is its account: there is one, and every handle works with it.
//!
//! # Topic vs State
//!
//! These two primitives are complements, not alternatives:
//!
//! | Need                                              | Use         |
//! |---------------------------------------------------|-------------|
//! | "Stream of newly-confirmed events"                | [`Topic`]   |
//! | "What's the current value? Plus future changes."  | [`State`]   |
//!
//! A typical pattern for a real-time API: serve a [`State::snapshot`] to a new
//! client, *then* hook them up to a [`Topic`] for live deltas.
pub mod cancel;
pub mod channel;
pub mod event;
pub mod laws;
pub mod owner;
pub mod resource;
pub mod runtime;
pub mod service;
pub mod shutdown_stream;
pub mod state;
pub mod util;

pub use event::{ReceiveError, Topic, TopicAccount, TopicClosed, TopicConfig, TopicReceiver};
pub use resource::{ResourceHandle, Site, UsageMap, WeakHandle};
pub use runtime::{
    compute_backoff, topo_sort, DagError, Runtime, RuntimeBuilder, RuntimeError, RuntimeHandle,
    ShutdownReason,
};
pub use service::{
    DynServiceError, ExhaustedAction, OnError, RestartPolicy, ServiceContext, ServiceName,
    ServiceSpec, ServiceStartError,
};
pub use shutdown_stream::{ShutdownStream, StreamPoll};
pub use state::{CellAccount, State, StateReceiver, StateRef};
pub use util::dedup_preserve_order;
