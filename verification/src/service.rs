//! What a service is to the runtime: its registration, the context it runs in, and
//! supporting error / policy types.
//!
//! A service is a long-running unit of work registered with the runtime. The
//! runtime starts services in topological dependency order, gates each one behind
//! its declared dependencies' readiness, and hands it a [`ServiceContext`] with a
//! per-service [`CancellationToken`]. A service that exits without an error is
//! done; one that fails is handled according to its [`OnError`] policy.
use std::time::Duration;

use tokio_util::sync::CancellationToken;
use vstd::prelude::*;
use vstd::string::StringExecFns;

use crate::cancel;
use crate::cancel::{Token, TokenState};
use crate::runtime::{RuntimeHandle, RuntimeState, ShutdownReason};
use crate::util;

verus! {

/// Static identifier for a service. Used to declare dependencies and label logs.
pub type ServiceName = &'static str;

/// A registered service: its name, the services it depends on, and whatever the
/// supervisor needs to run it.
pub struct ServiceSpec<A> {
    /// The service's name.
    pub name: ServiceName,
    /// The names of the services that must be ready before this one runs.
    pub deps: Vec<ServiceName>,
    /// What runs the service.
    pub adapter: A,
}

/// What the supervisor should do when a service's `run()` returns an error.
///
/// Defaults to [`OnError::ShutdownRuntime`]: a failed service is treated as
/// fatal unless it opts into restart or explicitly asks to be ignored.
#[derive(Debug)]
pub enum OnError<J> {
    /// Trigger a runtime-wide shutdown with
    /// [`ShutdownReason::ServiceFailed`](crate::ShutdownReason::ServiceFailed).
    /// This is the default.
    ShutdownRuntime,
    /// Restart the service after a backoff. Other services keep running.
    Restart(RestartPolicy<J>),
    /// Let the service stay exited. Other services keep running. The service's
    /// readiness state (if set) is preserved.
    Ignore,
}

impl<J: Copy> Clone for OnError<J> {
    fn clone(&self) -> (copy: Self)
        ensures
            copy == *self,
    {
        *self
    }
}

impl<J: Copy> Copy for OnError<J> {}

impl<J> Default for OnError<J> {
    fn default() -> (policy: Self)
        ensures
            policy is ShutdownRuntime,
    {
        OnError::ShutdownRuntime
    }
}

/// Restart policy: exponential backoff with optional jitter and max retries.
///
/// `J` is the type that jitter ratios are given in.
#[derive(Debug)]
pub struct RestartPolicy<J> {
    /// Minimum backoff (the delay before the first restart attempt).
    pub min_backoff: Duration,
    /// Maximum backoff cap. Backoff grows as `min_backoff * 2^(attempt-1)`,
    /// capped at this value.
    pub max_backoff: Duration,
    /// Jitter ratio. What spread it gives a backoff is the caller's to say, see
    /// [`compute_backoff`](crate::compute_backoff).
    pub jitter: J,
    /// Maximum number of restart attempts. `None` means unlimited.
    pub max_retries: Option<u32>,
    /// What to do once `max_retries` is reached.
    pub on_exhausted: ExhaustedAction,
}

impl<J: Copy> Clone for RestartPolicy<J> {
    fn clone(&self) -> (copy: Self)
        ensures
            copy == *self,
    {
        *self
    }
}

impl<J: Copy> Copy for RestartPolicy<J> {}

impl<J> RestartPolicy<J> {
    /// The default policy with the given jitter: backoff from 250 ms up to 30 s, no
    /// retry cap, and [`ExhaustedAction::ShutdownRuntime`].
    pub fn with_jitter(jitter: J) -> (policy: Self)
        ensures
            util::duration_nanos(policy.min_backoff) == 250 * util::nanos_per_milli(),
            util::duration_nanos(policy.max_backoff) == 30_000 * util::nanos_per_milli(),
            policy.jitter == jitter,
            policy.max_retries is None,
            policy.on_exhausted == ExhaustedAction::ShutdownRuntime,
    {
        RestartPolicy::with_bounds(util::from_millis(250), util::from_millis(30_000), jitter)
    }

    /// Construct a restart policy with the given bounds and jitter, no retry cap,
    /// and [`ExhaustedAction::ShutdownRuntime`].
    pub fn with_bounds(min_backoff: Duration, max_backoff: Duration, jitter: J) -> (policy: Self)
        ensures
            policy == (RestartPolicy {
                min_backoff,
                max_backoff,
                jitter,
                max_retries: None,
                on_exhausted: ExhaustedAction::ShutdownRuntime,
            }),
    {
        RestartPolicy {
            min_backoff,
            max_backoff,
            jitter,
            max_retries: None,
            on_exhausted: ExhaustedAction::ShutdownRuntime,
        }
    }
}

/// What to do when a restart policy's `max_retries` is exceeded.
#[derive(Clone, Copy, Debug, PartialEq, Eq, Structural)]
pub enum ExhaustedAction {
    /// Treat the exhausted service as a fatal runtime failure.
    ShutdownRuntime,
    /// Let the service stay exited; runtime keeps going.
    Ignore,
}

/// Context handed to every service when it's started.
pub struct ServiceContext {
    /// Cancellation token for this service.
    ///
    /// This is a child of the runtime's root token: cancelling the root cancels every
    /// service token, but cancelling one service's token doesn't affect siblings.
    /// Services should treat this firing as a request to wind down.
    pub token: Token,
    /// The service's declared name.
    pub name: ServiceName,
}

impl ServiceContext {
    /// This context's token is a child of the root token of the runtime.
    pub open spec fn belongs_to(&self, runtime: RuntimeState) -> bool {
        self.token@.ancestors == Set::<int>::empty().insert(runtime.token.id)
    }

    /// Returns `true` if this service's cancellation has been triggered.
    ///
    /// Whoever holds a clone of the token, or of the root token, can trigger it too;
    /// that it has not been triggered is stated where there are no clones.
    pub fn is_cancelled(&self, runtime: &RuntimeHandle) -> (cancelled: bool)
        requires
            runtime.wf(),
        ensures
            self.token@.cancelled ==> cancelled,
            self.belongs_to(runtime@) && runtime@.token.cancelled ==> cancelled,
            self.belongs_to(runtime@) && !runtime@.token.cancelled && runtime@.token.sole
                && !self.token@.cancelled && self.token@.sole ==> !cancelled,
    {
        runtime.token_is_cancelled(&self.token)
    }

    /// Cancel this service, and no other: only its own token is.
    pub fn cancel(&mut self)
        ensures
            final(self).token@ == (TokenState { cancelled: true, ..old(self).token@ }),
            final(self).name == old(self).name,
    {
        self.token.cancel();
    }

    /// A clone of this service's cancellation token, to wait on or to cancel.
    pub fn cancellation_token(&mut self) -> (token: CancellationToken)
        ensures
            final(self).token@ == (TokenState { sole: false, ..old(self).token@ }),
            final(self).name == old(self).name,
            cancel::handed_out(token).id == old(self).token@.id,
            cancel::handed_out(token).ancestors == old(self).token@.ancestors,
            old(self).token@.cancelled ==> cancel::handed_out(token).cancelled,
    {
        self.token.hand_out()
    }

    /// Create a child cancellation token for a sub-task.
    pub fn child_cancel(&self) -> (child: CancellationToken)
        ensures
            self.token@.cancelled ==> cancel::handed_out(child).cancelled,
            cancel::handed_out(child).ancestors == self.token@.ancestors.insert(self.token@.id),
    {
        let mut child = self.token.child();
        child.hand_out()
    }

    /// Mark this service as ready, allowing dependents to proceed: those who wait for it
    /// are notified.
    ///
    /// Any service that others depend on must call this once its initialization
    /// (DB hydration, listener bind, initial sync) is complete: dependents
    /// block until then. A service that nothing depends on need not call it.
    /// A context of a service that is not registered marks nothing, and says so.
    pub fn mark_ready(&self, runtime: &mut RuntimeHandle) -> (known: bool)
        requires
            old(runtime).wf(),
        ensures
            final(runtime).wf(),
            known == old(runtime)@.readiness.dom().contains(self.name@),
            final(runtime)@ == old(runtime)@.marked_ready(self.name@),
    {
        runtime.mark_ready(self.name)
    }
}

/// Once shutdown is requested, every context of the runtime is cancelled: it still
/// belongs to the runtime, and the root token is cancelled.
pub proof fn law_shutdown_reaches_every_service(
    ctx: ServiceContext,
    runtime: RuntimeState,
    reason: ShutdownReason,
)
    requires
        ctx.belongs_to(runtime),
    ensures
        ctx.belongs_to(runtime.shutdown_requested(reason)),
        runtime.shutdown_requested(reason).token.cancelled,
{
}

/// Error returned when a service can't be registered with the builder.
#[derive(Debug)]
pub enum ServiceStartError {
    /// Another service with the same name was already registered.
    Duplicate(ServiceName),
}

impl ServiceStartError {
    /// What this error says.
    pub fn message(&self) -> (message: String)
        ensures
            message@ == match self {
                ServiceStartError::Duplicate(name) => "duplicate service name: "@ + name@,
            },
    {
        match self {
            ServiceStartError::Duplicate(name) => "duplicate service name: ".to_owned().concat(name),
        }
    }
}

/// Boundary error: wraps what a service failed with along with its name.
///
/// The runtime reports this when a service fails fatally (either because its
/// policy is [`OnError::ShutdownRuntime`] or because its restart attempts were
/// exhausted with [`ExhaustedAction::ShutdownRuntime`]). Use
/// [`downcast_ref`](Self::downcast_ref) to recover the concrete error type.
#[derive(Debug)]
pub struct DynServiceError<S> {
    /// The name of the service that failed.
    pub service: ServiceName,
    /// What it failed with.
    pub source: S,
}

impl<S> DynServiceError<S> {
    /// Attempt to downcast the inner error to a concrete type. `cast` is how the
    /// source type does so.
    pub fn downcast_ref<E, F: FnOnce(&S) -> Option<&E>>(&self, cast: F) -> (found: Option<&E>)
        requires
            call_requires(cast, (&self.source,)),
        ensures
            call_ensures(cast, (&self.source,), found),
    {
        cast(&self.source)
    }

    /// What this error says, where `source` is how what the service failed with is
    /// written.
    pub open spec fn text(&self, source: Seq<char>) -> Seq<char> {
        "service `"@ + self.service@ + "` failed: "@ + source
    }

    /// What this error says. `show` is how what the service failed with is written.
    pub fn message<F: FnOnce(&S) -> String>(&self, show: F) -> (message: String)
        requires
            call_requires(show, (&self.source,)),
        ensures
            exists|source: String|
                {
                    &&& #[trigger] call_ensures(show, (&self.source,), source)
                    &&& message@ == self.text(source@)
                },
    {
        let source: String = show(&self.source);
        "service `".to_owned().concat(self.service).concat("` failed: ").concat(source.as_str())
    }
}

} // verus!
