//! Supervised, dependency-ordered runtime with readiness gating and per-service
//! restart policies.
//!
//! See [`Runtime`] and [`RuntimeBuilder`] for the entry points.
pub mod backoff;
pub mod builder;
pub mod dag;
pub mod readiness;
pub mod schedule;
pub mod supervisor;
pub mod task;
pub mod types;

pub use backoff::{apply_jitter, compute_backoff, exponential_backoff};
pub use builder::RuntimeBuilder;
pub use dag::{topo_sort, DagError};
pub use readiness::{wait_is_over, ReadinessRegistry, ReadinessSighting};
pub use supervisor::{
    drain_outcome, handle_failure, run_outcome, start_services, supervision_step, Action, Event,
    Reaction, ServiceState,
};
pub use task::{wait_report, ServiceTask, TaskAction, TaskEvent};
pub use types::{RecordedReason, Runtime, RuntimeError, RuntimeHandle, RuntimeState, ShutdownReason};
