//! The runtime's shared state and the handle to it.
use std::time::Duration;

use tokio::sync::watch;
use tokio_util::sync::CancellationToken;
use vstd::prelude::*;
use vstd::string::StringExecFns;

use crate::cancel;
use crate::cancel::{Token, TokenState};
use crate::channel::watch::{CellState, ReceiverState};
use crate::runtime::dag::DagError;
use crate::runtime::readiness;
use crate::runtime::readiness::{ReadinessRegistry, ReadinessSighting};
use crate::service::{DynServiceError, ServiceContext, ServiceName, ServiceSpec};
use crate::state::StateReceiver;
use crate::util;

verus! {

/// Why the runtime began shutting down.
#[derive(Debug, Clone, Copy, PartialEq, Eq, Structural)]
pub enum ShutdownReason {
    /// Explicit [`RuntimeHandle::request_shutdown`] call.
    Requested,
    /// A service returned an error and its policy escalated to a runtime shutdown.
    ServiceFailed,
    /// An OS signal (e.g. Ctrl-C) was received.
    Signal,
}

impl ShutdownReason {
    /// The number that stands for this reason.
    pub open spec fn code(self) -> u8 {
        match self {
            ShutdownReason::Requested => 1,
            ShutdownReason::ServiceFailed => 2,
            ShutdownReason::Signal => 3,
        }
    }

    /// The reason that a number stands for; [`ShutdownReason::Requested`] where it
    /// stands for none.
    pub open spec fn of_code(v: u8) -> ShutdownReason {
        if v == 2 {
            ShutdownReason::ServiceFailed
        } else if v == 3 {
            ShutdownReason::Signal
        } else {
            ShutdownReason::Requested
        }
    }

    /// The number that stands for this reason.
    pub fn as_u8(self) -> (v: u8)
        ensures
            v == self.code(),
    {
        match self {
            ShutdownReason::Requested => 1,
            ShutdownReason::ServiceFailed => 2,
            ShutdownReason::Signal => 3,
        }
    }

    /// The reason that a number stands for.
    pub fn from_u8(v: u8) -> (reason: Self)
        ensures
            reason == ShutdownReason::of_code(v),
    {
        match v {
            2 => ShutdownReason::ServiceFailed,
            3 => ShutdownReason::Signal,
            _ => ShutdownReason::Requested,
        }
    }
}

/// A reason is read back from the number that stands for it.
pub proof fn law_reason_code_round_trip(reason: ShutdownReason)
    ensures
        ShutdownReason::of_code(reason.code()) == reason,
{
}

/// The recorded shutdown reason, kept by its number.
pub struct RecordedReason {
    code: u8,
}

impl View for RecordedReason {
    type V = ShutdownReason;

    closed spec fn view(&self) -> ShutdownReason {
        ShutdownReason::of_code(self.code)
    }
}

impl RecordedReason {
    /// Record a first reason.
    pub fn new(reason: ShutdownReason) -> (recorded: Self)
        ensures
            recorded@ == reason,
    {
        RecordedReason { code: reason.as_u8() }
    }

    /// The reason on record.
    pub fn load(&self) -> (reason: ShutdownReason)
        ensures
            reason == self@,
    {
        ShutdownReason::from_u8(self.code)
    }

    /// Record another reason in place of the one on record.
    pub fn store(&mut self, reason: ShutdownReason)
        ensures
            final(self)@ == reason,
    {
        self.code = reason.as_u8();
    }
}

/// Errors produced by running a runtime. `S` is what services fail with.
#[derive(Debug)]
pub enum RuntimeError<S> {
    /// The dependency graph could not be ordered (cycle, missing dep, etc.).
    Dag(DagError),
    /// A service returned an error and its [`OnError`](crate::OnError) policy
    /// escalated to a runtime shutdown.
    ServiceFailed(DynServiceError<S>),
    /// Services did not finish draining within the configured shutdown timeout.
    ShutdownTimeout(Duration),
}

impl<S> RuntimeError<S> {
    /// What this error says. `show` is how what a service failed with is written.
    pub fn message<F: FnOnce(&S) -> String>(&self, show: F) -> (message: String)
        requires
            self matches RuntimeError::ServiceFailed(err) ==> call_requires(show, (&err.source,)),
        ensures
            match self {
                RuntimeError::Dag(err) => message@ == "dependency graph error: "@ + err.text(),
                RuntimeError::ServiceFailed(err) => exists|source: String|
                    {
                        &&& #[trigger] call_ensures(show, (&err.source,), source)
                        &&& message@ == "a service failed: "@ + err.text(source@)
                    },
                RuntimeError::ShutdownTimeout(timeout) => message@ == "shutdown timed out after "@
                    + util::duration_text(util::duration_nanos(*timeout)),
            },
    {
        match self {
            RuntimeError::Dag(err) => "dependency graph error: ".to_owned().concat(
                err.message().as_str(),
            ),
            RuntimeError::ServiceFailed(err) => "a service failed: ".to_owned().concat(
                err.message(show).as_str(),
            ),
            RuntimeError::ShutdownTimeout(timeout) => "shutdown timed out after ".to_owned().concat(
                util::show_duration(*timeout).as_str(),
            ),
        }
    }
}

/// What there is to know of a runtime.
pub struct RuntimeState {
    /// The root cancellation token. It is cancelled when shutdown is requested.
    pub token: TokenState,
    /// The recorded shutdown reason.
    pub reason: ShutdownReason,
    /// How long services are given to drain.
    pub shutdown_timeout: Duration,
    /// For each registered service, the cell that its readiness flag is kept in.
    pub readiness: Map<Seq<char>, CellState<bool>>,
}

impl RuntimeState {
    /// The state after a shutdown request.
    pub open spec fn shutdown_requested(self, reason: ShutdownReason) -> RuntimeState {
        RuntimeState { token: TokenState { cancelled: true, ..self.token }, reason, ..self }
    }

    /// The state after a service is marked ready, of which everyone who watches its
    /// readiness is notified; marking an unknown one changes nothing.
    pub open spec fn marked_ready(self, name: Seq<char>) -> RuntimeState {
        if self.readiness.dom().contains(name) {
            RuntimeState {
                readiness: self.readiness.insert(name, self.readiness[name].updated(true, true)),
                ..self
            }
        } else {
            self
        }
    }

    /// The state after someone begins to watch the readiness of a service; watching an
    /// unknown one changes nothing.
    pub open spec fn watched(self, name: Seq<char>) -> RuntimeState {
        if self.readiness.dom().contains(name) {
            RuntimeState {
                readiness: self.readiness.insert(name, self.readiness[name].heard()),
                ..self
            }
        } else {
            self
        }
    }

    /// The state after a receiver that follows the readiness of a registered service is
    /// taken out.
    pub open spec fn lending(self, name: Seq<char>) -> RuntimeState {
        RuntimeState {
            readiness: self.readiness.insert(name, self.readiness[name].lending()),
            ..self
        }
    }

    /// The same services are registered later, and those that are ready are still ready.
    pub open spec fn readiness_kept(self, later: RuntimeState) -> bool {
        &&& later.readiness.dom() == self.readiness.dom()
        &&& forall|name: Seq<char>| #[trigger] self.ready(name) ==> later.ready(name)
    }

    /// Whether a service is registered and ready.
    pub open spec fn ready(self, name: Seq<char>) -> bool {
        self.readiness.dom().contains(name) && self.readiness[name].value
    }
}

/// Handle to the runtime's state. Use to query state, request shutdown, and read
/// or update per-service readiness.
pub struct RuntimeHandle {
    cancel: Token,
    reason: RecordedReason,
    shutdown_timeout: Duration,
    readiness: ReadinessRegistry,
}

impl View for RuntimeHandle {
    type V = RuntimeState;

    closed spec fn view(&self) -> RuntimeState {
        RuntimeState {
            token: self.cancel@,
            reason: self.reason@,
            shutdown_timeout: self.shutdown_timeout,
            readiness: self.readiness@,
        }
    }
}

impl RuntimeHandle {
    /// The root token is no one's child, and each service has one readiness flag.
    pub closed spec fn wf(&self) -> bool {
        &&& self.cancel@.ancestors == Set::<int>::empty()
        &&& self.readiness.wf()
    }

    /// The state of a new runtime for services called `service_names`.
    pub fn new(shutdown_timeout: Option<Duration>, service_names: &[ServiceName]) -> (handle: Self)
        ensures
            handle.wf(),
            handle@.token.live_root(),
            handle@.reason == ShutdownReason::Requested,
            shutdown_timeout matches Some(d) ==> handle@.shutdown_timeout == d,
            shutdown_timeout is None ==> util::duration_nanos(handle@.shutdown_timeout)
                == util::DEFAULT_SHUTDOWN_TIMEOUT_MS * util::nanos_per_milli(),
            forall|name: Seq<char>| #[trigger]
                handle@.readiness.dom().contains(name) <==> util::name_views(
                    service_names@,
                ).contains(name),
            forall|name: Seq<char>| !#[trigger] handle@.ready(name),
    {
        let handle = RuntimeHandle {
            cancel: Token::new(),
            reason: RecordedReason::new(ShutdownReason::Requested),
            shutdown_timeout: match shutdown_timeout {
                Some(d) => d,
                None => util::from_millis(util::DEFAULT_SHUTDOWN_TIMEOUT_MS),
            },
            readiness: ReadinessRegistry::new(service_names),
        };
        assert forall|name: Seq<char>| !#[trigger] handle@.ready(name) by {
            assert(handle.readiness@.dom().contains(name) ==> !handle.readiness@[name].value);
        }
        handle
    }

    /// Returns `true` once shutdown has been requested (explicitly, via signal,
    /// or implicitly via a service failure escalation).
    ///
    /// Whoever holds a clone of the root token can cancel it too; what is stated
    /// of a runtime without a request is stated where there is no clone.
    pub fn is_shutting_down(&self) -> (shutting_down: bool)
        requires
            self.wf(),
        ensures
            self@.token.cancelled ==> shutting_down,
            !self@.token.cancelled && self@.token.sole ==> !shutting_down,
    {
        self.cancel.is_cancelled(&self.cancel)
    }

    /// Request shutdown of the runtime. Idempotent.
    pub fn request_shutdown(&mut self, reason: ShutdownReason)
        requires
            old(self).wf(),
        ensures
            final(self).wf(),
            final(self)@ == old(self)@.shutdown_requested(reason),
    {
        self.reason.store(reason);
        self.cancel.cancel();
    }

    /// What follows from listening for an OS signal: shutdown is requested where
    /// one arrived, and nothing happens where listening failed.
    pub fn signal_received(&mut self, arrived: bool)
        requires
            old(self).wf(),
        ensures
            final(self).wf(),
            final(self)@ == if arrived {
                old(self)@.shutdown_requested(ShutdownReason::Signal)
            } else {
                old(self)@
            },
    {
        if arrived {
            self.request_shutdown(ShutdownReason::Signal);
        }
    }

    /// Returns the recorded shutdown reason. Meaningful only after
    /// [`is_shutting_down`](Self::is_shutting_down) is true.
    pub fn shutdown_reason(&self) -> (reason: ShutdownReason)
        ensures
            reason == self@.reason,
    {
        self.reason.load()
    }

    /// How long the supervisor waits for services to drain.
    pub fn shutdown_timeout(&self) -> (timeout: Duration)
        ensures
            timeout == self@.shutdown_timeout,
    {
        self.shutdown_timeout
    }

    /// The runtime's root cancellation token. Cancelled when shutdown is requested.
    pub fn cancellation_token(&mut self) -> (token: CancellationToken)
        requires
            old(self).wf(),
        ensures
            final(self).wf(),
            final(self)@ == (RuntimeState {
                token: TokenState { sole: false, ..old(self)@.token },
                ..old(self)@
            }),
            cancel::handed_out(token).id == old(self)@.token.id,
            cancel::handed_out(token).ancestors == old(self)@.token.ancestors,
            old(self)@.token.cancelled ==> cancel::handed_out(token).cancelled,
    {
        self.cancel.hand_out()
    }

    /// The context for a run of the service called `name`, with a new child of the
    /// root token.
    pub fn service_context(&self, name: ServiceName) -> (ctx: ServiceContext)
        requires
            self.wf(),
        ensures
            ctx.name == name,
            ctx.belongs_to(self@),
            ctx.token@.cancelled == self@.token.cancelled,
            ctx.token@.sole,
    {
        ServiceContext { token: self.cancel.child(), name }
    }

    /// Whether a token below the root token is cancelled.
    pub(crate) fn token_is_cancelled(&self, token: &Token) -> (cancelled: bool)
        requires
            self.wf(),
        ensures
            token@.cancelled ==> cancelled,
            self@.token.cancelled && token@.ancestors.contains(self@.token.id)
                ==> cancelled,
            ({
                let child = token@;
                &&& child.ancestors == Set::<int>::empty().insert(self@.token.id)
                &&& !child.cancelled && child.sole
                &&& !self@.token.cancelled && self@.token.sole
            }) ==> !cancelled,
    {
        token.is_cancelled(&self.cancel)
    }

    /// Mark a service as ready, allowing dependents to proceed: everyone who watches its
    /// readiness is notified. Unknown names are ignored, and said to be unknown.
    pub fn mark_ready(&mut self, name: ServiceName) -> (known: bool)
        requires
            old(self).wf(),
        ensures
            final(self).wf(),
            known == old(self)@.readiness.dom().contains(name@),
            final(self)@ == old(self)@.marked_ready(name@),
    {
        self.readiness.mark_ready(name)
    }

    /// Returns whether a service has been marked ready.
    ///
    /// Returns `false` for unknown service names.
    pub fn is_ready(&self, name: ServiceName) -> (ready: bool)
        requires
            self.wf(),
        ensures
            ready == self@.ready(name@),
    {
        self.readiness.is_ready(name)
    }

    /// A receiver that follows the readiness of a service, or `None` if the name
    /// is unknown to the runtime. It is notified of every mark from here on.
    pub fn watch_readiness(&mut self, name: ServiceName) -> (receiver: Option<
        StateReceiver<bool>,
    >)
        requires
            old(self).wf(),
        ensures
            final(self).wf(),
            final(self)@ == old(self)@.watched(name@),
            receiver is Some <==> old(self)@.readiness.dom().contains(name@),
            receiver matches Some(r) ==> r@ == old(self)@.readiness[name@].new_receiver(),
    {
        self.readiness.subscribe(name)
    }

    /// Take a receiver from [`watch_readiness`](Self::watch_readiness) out, to wait on.
    pub fn readiness_changes(
        &mut self,
        name: ServiceName,
        receiver: StateReceiver<bool>,
    ) -> (changes: watch::Receiver<bool>)
        requires
            old(self).wf(),
            old(self)@.readiness.dom().contains(name@),
            receiver@.cell == old(self)@.readiness[name@].cell,
        ensures
            final(self).wf(),
            final(self)@ == old(self)@.lending(name@),
            changes == receiver.inner(),
    {
        self.readiness.lend(name, receiver)
    }

    /// What a receiver from [`watch_readiness`](Self::watch_readiness) shows of the
    /// service.
    pub fn readiness_seen(&self, name: ServiceName, receiver: &StateReceiver<bool>) -> (seen:
        ReadinessSighting)
        requires
            self.wf(),
            self@.readiness.dom().contains(name@) ==> receiver@.cell == self@.readiness[name@].cell,
        ensures
            seen == readiness::sighting_of(self@.readiness, name@),
    {
        self.readiness.sighting(name, receiver)
    }
}

/// A configured runtime, ready to run. `A` is what runs a service.
pub struct Runtime<A> {
    handle: RuntimeHandle,
    specs: Vec<ServiceSpec<A>>,
}

impl<A> Runtime<A> {
    /// The registered services.
    pub closed spec fn specs(&self) -> Seq<ServiceSpec<A>> {
        self.specs@
    }

    /// The state of the runtime.
    pub closed spec fn state(&self) -> RuntimeState {
        self.handle@
    }

    /// The runtime's state is its own.
    pub closed spec fn wf(&self) -> bool {
        self.handle.wf()
    }

    /// A runtime of the given services, with the given state.
    pub fn new(handle: RuntimeHandle, specs: Vec<ServiceSpec<A>>) -> (runtime: Self)
        requires
            handle.wf(),
        ensures
            runtime.wf(),
            runtime.state() == handle@,
            runtime.specs() == specs@,
    {
        Runtime { handle, specs }
    }

    /// Get the handle to this runtime.
    pub fn handle(&mut self) -> (handle: &mut RuntimeHandle)
        requires
            old(self).wf(),
        ensures
            handle.wf(),
            handle@ == old(self).state(),
            final(self).state() == final(handle)@,
            final(handle).wf() ==> final(self).wf(),
            final(self).specs() == old(self).specs(),
    {
        &mut self.handle
    }

    /// Split into the handle and the registered services, in registration order.
    pub fn into_parts(self) -> (parts: (RuntimeHandle, Vec<ServiceSpec<A>>))
        requires
            self.wf(),
        ensures
            parts.0.wf(),
            parts.0@ == self.state(),
            parts.1@ == self.specs(),
    {
        (self.handle, self.specs)
    }
}

/// Requesting shutdown again for the same reason changes nothing.
pub proof fn law_request_shutdown_idempotent(state: RuntimeState, reason: ShutdownReason)
    ensures
        state.shutdown_requested(reason).shutdown_requested(reason) == state.shutdown_requested(
            reason,
        ),
{
}

/// Once shutdown has been requested it stays requested, whatever is done with the
/// runtime's state.
pub proof fn law_shutdown_is_final(state: RuntimeState, reason: ShutdownReason, name: Seq<char>)
    requires
        state.token.cancelled,
    ensures
        state.shutdown_requested(reason).token.cancelled,
        state.marked_ready(name).token.cancelled,
        state.watched(name).token.cancelled,
        state.lending(name).token.cancelled,
{
}

/// Marking a service ready makes that service ready, if it is registered, and
/// changes no other.
pub proof fn law_marked_ready_is_ready(state: RuntimeState, name: Seq<char>, other: Seq<char>)
    ensures
        state.readiness.dom().contains(name) ==> state.marked_ready(name).ready(name),
        !state.readiness.dom().contains(name) ==> state.marked_ready(name) == state,
        other != name ==> state.marked_ready(name).ready(other) == state.ready(other),
{
}

/// Marking a service ready twice leaves every service, and everything else, as marking
/// it once does; it is only notified of twice.
pub proof fn law_mark_ready_idempotent(state: RuntimeState, name: Seq<char>, other: Seq<char>)
    ensures
        ({
            let once = state.marked_ready(name);
            let twice = once.marked_ready(name);
            &&& twice.ready(other) == once.ready(other)
            &&& twice == (RuntimeState { readiness: twice.readiness, ..once })
            &&& readiness::sighting_of(twice.readiness, other) == readiness::sighting_of(
                once.readiness,
                other,
            )
        }),
{
}

/// Waiting for a service ends where it is unknown, and otherwise once it is marked
/// ready; marking others, or watching any, does not end it, and nothing undoes that end.
pub proof fn law_wait_ends_with_the_mark(state: RuntimeState, name: Seq<char>, other: Seq<char>)
    ensures
        readiness::ends_wait(readiness::sighting_of(state.readiness, name))
            <==> !state.readiness.dom().contains(name) || state.ready(name),
        readiness::ends_wait(
            readiness::sighting_of(state.marked_ready(name).readiness, name),
        ),
        other != name ==> readiness::sighting_of(state.marked_ready(other).readiness, name)
            == readiness::sighting_of(state.readiness, name),
        readiness::sighting_of(state.watched(other).readiness, name) == readiness::sighting_of(
            state.readiness,
            name,
        ),
{
}

/// Whoever watches a service has news of it once it is marked ready, and has none
/// before; marking others, and others who watch, make none. A receiver that has news
/// still follows the service.
pub proof fn law_mark_reaches_who_watches(
    state: RuntimeState,
    receiver: ReceiverState,
    name: Seq<char>,
    other: Seq<char>,
)
    requires
        state.readiness.dom().contains(name),
        receiver == state.readiness[name].new_receiver(),
    ensures
        receiver.has_news(state.watched(name).marked_ready(name).readiness[name]),
        receiver.cell == state.watched(name).marked_ready(name).readiness[name].cell,
        state.watched(name).readiness[name].notified == receiver.seen,
        state.watched(name).watched(other).readiness[name].notified == receiver.seen,
        other != name ==> state.watched(name).marked_ready(other).readiness[name].notified
            == receiver.seen,
{
}

/// A ready service stays ready, and an unknown one unknown, whatever is done with the
/// runtime's state.
pub proof fn law_readiness_is_kept(
    state: RuntimeState,
    later: RuntimeState,
    name: Seq<char>,
    reason: ShutdownReason,
)
    ensures
        state.readiness_kept(state),
        state.readiness_kept(state.marked_ready(name)),
        state.readiness_kept(state.watched(name)),
        state.readiness.dom().contains(name) ==> state.readiness_kept(state.lending(name)),
        state.readiness_kept(state.shutdown_requested(reason)),
        state.readiness_kept(later) ==> state.readiness_kept(later.marked_ready(name)),
        state.readiness_kept(later) ==> state.readiness_kept(later.watched(name)),
        state.readiness_kept(later) && later.readiness.dom().contains(name)
            ==> state.readiness_kept(later.lending(name)),
        state.readiness_kept(later) ==> state.readiness_kept(later.shutdown_requested(reason)),
{
    assert(state.marked_ready(name).readiness.dom() =~= state.readiness.dom());
    assert(state.watched(name).readiness.dom() =~= state.readiness.dom());
    assert(later.marked_ready(name).readiness.dom() =~= later.readiness.dom());
    assert(later.watched(name).readiness.dom() =~= later.readiness.dom());
    if state.readiness.dom().contains(name) {
        assert(state.lending(name).readiness.dom() =~= state.readiness.dom());
    }
    if later.readiness.dom().contains(name) {
        assert(later.lending(name).readiness.dom() =~= later.readiness.dom());
    }
    assert forall|other: Seq<char>| state.readiness_kept(later) && #[trigger] state.ready(
        other,
    ) implies later.marked_ready(name).ready(other) && later.watched(name).ready(other)
        && later.lending(name).ready(other) && later.shutdown_requested(reason).ready(other) by {
        assert(later.ready(other));
    }
}

} // verus!
