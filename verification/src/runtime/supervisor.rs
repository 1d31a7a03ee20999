//! Supervision: what the runtime does when services exit or fail.
use std::time::Duration;

use vstd::prelude::*;

use crate::runtime::backoff;
use crate::runtime::backoff::compute_backoff;
use crate::runtime::dag;
use crate::runtime::dag::topo_sort;
use crate::runtime::types::{RuntimeError, RuntimeHandle, RuntimeState, ShutdownReason};
use crate::service::{
    DynServiceError, ExhaustedAction, OnError, RestartPolicy, ServiceName, ServiceSpec,
};

verus! {

/// Per-service supervision state.
pub struct ServiceState<A, J> {
    /// The service's name.
    pub name: ServiceName,
    /// The names of the services that must be ready before this one runs.
    pub deps: Vec<ServiceName>,
    /// What runs the service.
    pub adapter: A,
    /// What to do when the service fails.
    pub on_error: OnError<J>,
    /// How many restart attempts have been made.
    pub attempts: u32,
}

/// One more attempt, as far as 32 bits can count them.
pub open spec fn next_attempt(attempts: u32) -> u32 {
    if attempts == u32::MAX {
        attempts
    } else {
        (attempts + 1) as u32
    }
}

/// What becomes of a service that failed.
pub enum Verdict {
    /// The failure is fatal to the runtime.
    ShutDown,
    /// The service stays exited; the runtime keeps going.
    LetGo,
    /// The service is started again.
    Restart,
}

/// What becomes of a service that fails under `on_error` after so many restart
/// attempts.
pub open spec fn verdict<J>(on_error: OnError<J>, attempts: u32) -> Verdict {
    match on_error {
        OnError::ShutdownRuntime => Verdict::ShutDown,
        OnError::Ignore => Verdict::LetGo,
        OnError::Restart(policy) => if exhausted(policy, next_attempt(attempts)) {
            match policy.on_exhausted {
                ExhaustedAction::ShutdownRuntime => Verdict::ShutDown,
                ExhaustedAction::Ignore => Verdict::LetGo,
            }
        } else {
            Verdict::Restart
        },
    }
}

/// Restart `attempt` is one more than `policy` allows.
pub open spec fn exhausted<J>(policy: RestartPolicy<J>, attempt: u32) -> bool {
    policy.max_retries matches Some(max) && attempt > max
}

/// The state of a service after a failure: under a restart policy, one more
/// attempt is counted.
pub open spec fn after_failure<A, J>(state: ServiceState<A, J>) -> ServiceState<A, J> {
    match state.on_error {
        OnError::Restart(_) => ServiceState { attempts: next_attempt(state.attempts), ..state },
        _ => state,
    }
}

/// What the supervisor does about a failure. `S` is what services fail with.
pub enum Reaction<S> {
    /// Nothing: the service stays exited.
    Absorb,
    /// Start the service again after this delay.
    Restart(Duration),
    /// Shut the runtime down with this error.
    Escalate(RuntimeError<S>),
}

/// Dispatch on the failed service's [`OnError`] policy.
///
/// `spread_of` is as for [`compute_backoff`].
pub fn handle_failure<A, J, S, F: Fn(&J, u64) -> u64>(
    states: &mut Vec<ServiceState<A, J>>,
    handle: &mut RuntimeHandle,
    idx: usize,
    err: DynServiceError<S>,
    spread_of: &F,
) -> (reaction: Reaction<S>)
    requires
        idx < old(states)@.len(),
        old(handle).wf(),
        forall|jitter: J, ms: u64| call_requires(spread_of, (&jitter, ms)),
    ensures
        final(handle).wf(),
        final(states)@ == old(states)@.update(
            idx as int,
            after_failure(old(states)@[idx as int]),
        ),
        reacts(
            old(states)@[idx as int],
            old(handle)@,
            err,
            spread_of,
            reaction,
            final(handle)@,
        ),
{
    let restarts = match &states[idx].on_error {
        OnError::Restart(_) => true,
        _ => false,
    };
    if restarts {
        states[idx].attempts = states[idx].attempts.saturating_add(1);
    }
    let ghost counted = states@[idx as int];
    assert(states@ =~= old(states)@.update(idx as int, counted));
    assert(counted == after_failure(old(states)@[idx as int]));
    let state = &states[idx];
    let fatal = match &state.on_error {
        OnError::ShutdownRuntime => true,
        OnError::Ignore => false,
        OnError::Restart(policy) => {
            let spent = match policy.max_retries {
                Some(max) => state.attempts > max,
                None => false,
            };
            if !spent {
                return Reaction::Restart(compute_backoff(policy, state.attempts, spread_of));
            }
            match policy.on_exhausted {
                ExhaustedAction::ShutdownRuntime => true,
                ExhaustedAction::Ignore => false,
            }
        },
    };
    if fatal {
        handle.request_shutdown(ShutdownReason::ServiceFailed);
        Reaction::Escalate(RuntimeError::ServiceFailed(err))
    } else {
        Reaction::Absorb
    }
}

/// How the supervisor reacts to `err` from a service in state `state`, and what
/// that does to the runtime: a fatal failure requests shutdown, nothing else does.
pub open spec fn reacts<A, J, S, F: Fn(&J, u64) -> u64>(
    state: ServiceState<A, J>,
    runtime: RuntimeState,
    err: DynServiceError<S>,
    spread_of: &F,
    reaction: Reaction<S>,
    after: RuntimeState,
) -> bool {
    match verdict(state.on_error, state.attempts) {
        Verdict::ShutDown => {
            &&& reaction == Reaction::Escalate(RuntimeError::ServiceFailed(err))
            &&& after == runtime.shutdown_requested(ShutdownReason::ServiceFailed)
        },
        Verdict::LetGo => {
            &&& reaction is Absorb
            &&& after == runtime
        },
        Verdict::Restart => {
            &&& after == runtime
            &&& reaction matches Reaction::Restart(delay)
            &&& backoff::is_backoff(
                state.on_error->Restart_0,
                next_attempt(state.attempts),
                spread_of,
                delay,
            )
        },
    }
}

/// What the supervisor can come to see while services run.
pub enum Event<S> {
    /// The runtime's root token was cancelled.
    ShutdownRequested,
    /// No service is left running.
    AllExited,
    /// The service with this index exited gracefully.
    Exited(usize),
    /// The service with this index failed.
    Failed(usize, DynServiceError<S>),
    /// A service's task panicked or was cancelled unexpectedly; which service that
    /// was is not known.
    Lost(S),
}

/// What the supervisor does next.
pub enum Action<S> {
    /// Wait for the next event.
    Wait,
    /// Start a service again after a delay, then wait for the next event.
    Restart {
        /// The service's index.
        idx: usize,
        /// The delay.
        delay: Duration,
    },
    /// Leave the supervision loop with this outcome.
    Stop(Result<(), RuntimeError<S>>),
}

/// The name by which a service is reported that is not known.
pub open spec fn unknown_service() -> Seq<char> {
    "<unknown>"@
}

/// The service that an event names is one of `n`.
pub open spec fn event_in_range<S>(event: Event<S>, n: nat) -> bool {
    match event {
        Event::Exited(idx) => idx < n,
        Event::Failed(idx, _) => idx < n,
        _ => true,
    }
}

/// The states of the services after an event.
pub open spec fn states_after<A, J, S>(
    states: Seq<ServiceState<A, J>>,
    event: Event<S>,
) -> Seq<ServiceState<A, J>> {
    match event {
        Event::Failed(idx, _) => states.update(idx as int, after_failure(states[idx as int])),
        _ => states,
    }
}

/// What the supervisor does at an event, and what that does to the runtime.
pub open spec fn supervised<A, J, S, F: Fn(&J, u64) -> u64>(
    states: Seq<ServiceState<A, J>>,
    runtime: RuntimeState,
    event: Event<S>,
    spread_of: &F,
    action: Action<S>,
    after: RuntimeState,
) -> bool {
    match event {
        Event::ShutdownRequested => action == Action::<S>::Stop(Ok(())) && after == runtime,
        Event::AllExited => action == Action::<S>::Stop(Ok(())) && after == runtime,
        Event::Exited(_) => action is Wait && after == runtime,
        Event::Failed(idx, err) => exists|reaction: Reaction<S>|
            {
                &&& #[trigger] reacts(
                    states[idx as int],
                    runtime,
                    err,
                    spread_of,
                    reaction,
                    after,
                )
                &&& action == action_for(idx, reaction)
            },
        Event::Lost(source) => {
            &&& after == runtime.shutdown_requested(ShutdownReason::ServiceFailed)
            &&& action matches Action::Stop(Err(RuntimeError::ServiceFailed(err)))
            &&& err.service@ == unknown_service()
            &&& err.source == source
        },
    }
}

/// What to do next where the supervisor reacts so to a failure of service `idx`.
pub open spec fn action_for<S>(idx: usize, reaction: Reaction<S>) -> Action<S> {
    match reaction {
        Reaction::Absorb => Action::Wait,
        Reaction::Restart(delay) => Action::Restart { idx, delay },
        Reaction::Escalate(err) => Action::Stop(Err(err)),
    }
}

/// One round of the supervision loop: it ends when the runtime is shutting down or
/// all services have exited, or with an error on a fatal service failure.
///
/// Graceful exits are never restarted, even under a restart policy.
pub fn supervision_step<A, J, S, F: Fn(&J, u64) -> u64>(
    states: &mut Vec<ServiceState<A, J>>,
    handle: &mut RuntimeHandle,
    event: Event<S>,
    spread_of: &F,
) -> (action: Action<S>)
    requires
        event_in_range(event, old(states)@.len()),
        old(handle).wf(),
        forall|jitter: J, ms: u64| call_requires(spread_of, (&jitter, ms)),
    ensures
        final(handle).wf(),
        final(states)@ == states_after(old(states)@, event),
        supervised(old(states)@, old(handle)@, event, spread_of, action, final(handle)@),
{
    match event {
        Event::ShutdownRequested => Action::Stop(Ok(())),
        Event::AllExited => Action::Stop(Ok(())),
        Event::Exited(_) => Action::Wait,
        Event::Failed(idx, err) => {
            let reaction = handle_failure(states, handle, idx, err, spread_of);
            match reaction {
                Reaction::Absorb => Action::Wait,
                Reaction::Restart(delay) => Action::Restart { idx, delay },
                Reaction::Escalate(err) => Action::Stop(Err(err)),
            }
        },
        Event::Lost(source) => {
            handle.request_shutdown(ShutdownReason::ServiceFailed);
            Action::Stop(
                Err(RuntimeError::ServiceFailed(DynServiceError { service: "<unknown>", source })),
            )
        },
    }
}

/// The outcome of draining: an error where the services were not all done within
/// `timeout`.
pub fn drain_outcome<S>(drained: bool, timeout: Duration) -> (outcome: Result<(), RuntimeError<S>>)
    ensures
        outcome == if drained {
            Ok(())
        } else {
            Err(RuntimeError::<S>::ShutdownTimeout(timeout))
        },
{
    if drained {
        Ok(())
    } else {
        Err(RuntimeError::ShutdownTimeout(timeout))
    }
}

/// The outcome of a run: what ended the supervision loop comes before what went
/// wrong while draining.
pub fn run_outcome<S>(
    loop_outcome: Result<(), RuntimeError<S>>,
    drain_outcome: Result<(), RuntimeError<S>>,
) -> (outcome: Result<(), RuntimeError<S>>)
    ensures
        outcome == if loop_outcome is Err {
            loop_outcome
        } else {
            drain_outcome
        },
{
    match loop_outcome {
        Ok(()) => drain_outcome,
        Err(loop_err) => Err(loop_err),
    }
}

/// `states` are the supervision states of the services in `specs` when a run
/// begins: one for each service, in start order, with no attempts made.
pub open spec fn is_initial<A, J, F: Fn(&A) -> OnError<J>>(
    specs: Seq<ServiceSpec<A>>,
    order: Seq<usize>,
    policy_of: &F,
    states: Seq<ServiceState<A, J>>,
) -> bool {
    &&& states.len() == order.len()
    &&& forall|p: int|
        0 <= p < states.len() ==> {
            let spec = specs[order[p] as int];
            &&& (#[trigger] states[p]).name == spec.name
            &&& states[p].deps == spec.deps
            &&& states[p].adapter == spec.adapter
            &&& call_ensures(policy_of, (&spec.adapter,), states[p].on_error)
            &&& states[p].attempts == 0
        }
}

/// Validate the dependency graph and set up the supervision states of the
/// services, in the order in which they are started. `policy_of` tells the policy
/// of a service; it is not asked where the graph is refused.
pub fn start_services<A, J, S, F: Fn(&A) -> OnError<J>>(
    specs: Vec<ServiceSpec<A>>,
    policy_of: &F,
) -> (outcome: Result<Vec<ServiceState<A, J>>, RuntimeError<S>>)
    requires
        (exists|order: Vec<usize>| #[trigger] dag::sorted(dag::nodes(specs@), Ok(order)))
            ==> forall|i: int|
            0 <= i < specs@.len() ==> call_requires(
                policy_of,
                (&(#[trigger] specs@[i]).adapter,),
            ),
    ensures
        match outcome {
            Ok(states) => exists|order: Vec<usize>|
                #![trigger dag::sorted(dag::nodes(specs@), Ok(order))]
                {
                    &&& dag::sorted(dag::nodes(specs@), Ok(order))
                    &&& is_initial(specs@, order@, policy_of, states@)
                },
            Err(RuntimeError::Dag(e)) => dag::sorted(dag::nodes(specs@), Err(e)),
            Err(_) => false,
        },
{
    let order: Vec<usize> = match topo_sort(specs.as_slice()) {
        Ok(order) => order,
        Err(e) => return Err(RuntimeError::Dag(e)),
    };
    let ghost all = specs@;
    let n: usize = specs.len();
    let mut specs: Vec<ServiceSpec<A>> = specs;
    let mut slots: Vec<Option<ServiceSpec<A>>> = Vec::new();
    while slots.len() < n
        invariant
            all.len() == n,
            slots@.len() <= n,
            specs@ == all.take(n - slots@.len()),
            forall|i: int| 0 <= i < slots@.len() ==> #[trigger] slots@[i] == Some(all[n - 1 - i]),
        decreases n - slots@.len(),
    {
        let last = specs.pop();
        assert(last == Some(all[n - 1 - slots@.len()]));
        slots.push(last);
        assert(specs@ =~= all.take(n - slots@.len()));
    }
    let mut states: Vec<ServiceState<A, J>> = Vec::new();
    let mut p: usize = 0;
    while p < order.len()
        invariant
            all.len() == n,
            slots@.len() == n,
            p <= order@.len(),
            order@.no_duplicates(),
            forall|q: int| 0 <= q < order@.len() ==> (#[trigger] order@[q]) < n,
            forall|q: int|
                p <= q < order@.len() ==> slots@[n - 1 - #[trigger] order@[q]] == Some(
                    all[order@[q] as int],
                ),
            forall|i: int|
                0 <= i < n ==> call_requires(policy_of, (&(#[trigger] all[i]).adapter,)),
            states@.len() == p,
            is_initial(all, order@.take(p as int), policy_of, states@),
        decreases order@.len() - p,
    {
        let i: usize = order[p];
        let slot: usize = n - 1 - i;
        if let Some(spec) = slots[slot].take() {
            let on_error = policy_of(&spec.adapter);
            let ghost before = states@;
            states.push(
                ServiceState {
                    name: spec.name,
                    deps: spec.deps,
                    adapter: spec.adapter,
                    on_error,
                    attempts: 0,
                },
            );
            proof {
                let now = order@.take(p + 1);
                assert forall|q: int| 0 <= q < states@.len() implies {
                    let spec = all[now[q] as int];
                    &&& (#[trigger] states@[q]).name == spec.name
                    &&& states@[q].deps == spec.deps
                    &&& states@[q].adapter == spec.adapter
                    &&& call_ensures(policy_of, (&spec.adapter,), states@[q].on_error)
                    &&& states@[q].attempts == 0
                } by {
                    if q < p {
                        assert(before[q] == states@[q]);
                        assert(order@.take(p as int)[q] == now[q]);
                    }
                }
            }
        }
        p += 1;
    }
    assert(order@.take(p as int) =~= order@);
    Ok(states)
}

/// A graceful exit restarts nothing and changes nothing, whatever the policy.
pub proof fn law_graceful_exit_is_final<A, J, S, F: Fn(&J, u64) -> u64>(
    states: Seq<ServiceState<A, J>>,
    runtime: RuntimeState,
    idx: usize,
    spread_of: &F,
    action: Action<S>,
    after: RuntimeState,
)
    requires
        supervised(states, runtime, Event::Exited(idx), spread_of, action, after),
    ensures
        action is Wait,
        after == runtime,
        states_after(states, Event::<S>::Exited(idx)) == states,
{
}

/// Whatever happens to a service, the others are supervised as before.
pub proof fn law_other_services_unaffected<A, J, S>(
    states: Seq<ServiceState<A, J>>,
    event: Event<S>,
    other: int,
)
    requires
        event_in_range(event, states.len()),
        0 <= other < states.len(),
        !(event matches Event::Failed(idx, _) && idx == other),
    ensures
        states_after(states, event).len() == states.len(),
        states_after(states, event)[other] == states[other],
{
}

/// The loop ends with an error exactly where a failure is fatal; shutdown has then
/// been requested, with [`ShutdownReason::ServiceFailed`] as its reason. At any
/// other event the runtime's state stays as it was.
pub proof fn law_only_fatal_failures_shut_down<A, J, S, F: Fn(&J, u64) -> u64>(
    states: Seq<ServiceState<A, J>>,
    runtime: RuntimeState,
    event: Event<S>,
    spread_of: &F,
    action: Action<S>,
    after: RuntimeState,
)
    requires
        event_in_range(event, states.len()),
        supervised(states, runtime, event, spread_of, action, after),
    ensures
        ({
            let fatal = match event {
                Event::Failed(idx, _) => verdict(
                    states[idx as int].on_error,
                    states[idx as int].attempts,
                ) is ShutDown,
                Event::Lost(_) => true,
                _ => false,
            };
            &&& (action matches Action::Stop(Err(_))) == fatal
            &&& fatal ==> after == runtime.shutdown_requested(ShutdownReason::ServiceFailed)
            &&& fatal ==> (action matches Action::Stop(Err(RuntimeError::ServiceFailed(_))))
            &&& !fatal ==> after == runtime
        }),
{
}

/// The error that ends a run after a service failed is the very one that the service
/// failed with.
pub proof fn law_fatal_error_is_preserved<A, J, S, F: Fn(&J, u64) -> u64>(
    states: Seq<ServiceState<A, J>>,
    runtime: RuntimeState,
    idx: usize,
    err: DynServiceError<S>,
    spread_of: &F,
    outcome: Result<(), RuntimeError<S>>,
    after: RuntimeState,
)
    requires
        supervised(
            states,
            runtime,
            Event::Failed(idx, err),
            spread_of,
            Action::Stop(outcome),
            after,
        ),
    ensures
        outcome == Err::<(), RuntimeError<S>>(RuntimeError::ServiceFailed(err)),
{
}

/// An ignored failure leaves the readiness of the service, and of every other, as
/// it was; so does every other event.
pub proof fn law_supervision_keeps_readiness<A, J, S, F: Fn(&J, u64) -> u64>(
    states: Seq<ServiceState<A, J>>,
    runtime: RuntimeState,
    event: Event<S>,
    spread_of: &F,
    action: Action<S>,
    after: RuntimeState,
    name: Seq<char>,
)
    requires
        supervised(states, runtime, event, spread_of, action, after),
    ensures
        after.ready(name) == runtime.ready(name),
{
}

/// How often service `idx` fails among `events`.
pub open spec fn failures_of<S>(events: Seq<Event<S>>, idx: int) -> nat
    decreases events.len(),
{
    if events.len() == 0 {
        0
    } else {
        failures_of(events.drop_last(), idx) + if events.last() matches Event::Failed(i, _) && i
            == idx {
            1nat
        } else {
            0nat
        }
    }
}

/// The states of the services after a number of events.
pub open spec fn states_after_all<A, J, S>(
    states: Seq<ServiceState<A, J>>,
    events: Seq<Event<S>>,
) -> Seq<ServiceState<A, J>>
    decreases events.len(),
{
    if events.len() == 0 {
        states
    } else {
        states_after(states_after_all(states, events.drop_last()), events.last())
    }
}

/// Through any number of events a service keeps its policy, and under a restart
/// policy its attempts count its failures.
pub proof fn law_attempts_count_failures<A, J, S>(
    states: Seq<ServiceState<A, J>>,
    events: Seq<Event<S>>,
    idx: int,
)
    requires
        forall|t: int|
            0 <= t < events.len() ==> event_in_range(#[trigger] events[t], states.len()),
        0 <= idx < states.len(),
        states[idx].attempts == 0,
    ensures
        ({
            let state = states_after_all(states, events)[idx];
            &&& states_after_all(states, events).len() == states.len()
            &&& state.on_error == states[idx].on_error
            &&& state.on_error is Restart ==> state.attempts == if failures_of(events, idx)
                > u32::MAX {
                u32::MAX as nat
            } else {
                failures_of(events, idx)
            }
        }),
    decreases events.len(),
{
    if events.len() > 0 {
        let earlier = events.drop_last();
        assert forall|t: int| 0 <= t < earlier.len() implies event_in_range(
            #[trigger] earlier[t],
            states.len(),
        ) by {
            assert(earlier[t] == events[t]);
        }
        law_attempts_count_failures(states, earlier, idx);
        assert(event_in_range(events[events.len() - 1], states.len()));
    }
}

/// A service with at most `max` retries is restarted at each of its first `max`
/// failures, counted over a whole run; at every further one its policy's
/// [`on_exhausted`](RestartPolicy::on_exhausted) decides.
pub proof fn law_restarts_are_capped<A, J, S>(
    states: Seq<ServiceState<A, J>>,
    events: Seq<Event<S>>,
    idx: int,
    policy: RestartPolicy<J>,
    max: u32,
)
    requires
        forall|t: int|
            0 <= t < events.len() ==> event_in_range(#[trigger] events[t], states.len()),
        0 <= idx < states.len(),
        states[idx].attempts == 0,
        states[idx].on_error == OnError::Restart(policy),
        policy.max_retries == Some(max),
        max < u32::MAX,
    ensures
        ({
            let state = states_after_all(states, events)[idx];
            verdict(state.on_error, state.attempts) == if failures_of(events, idx) < max {
                Verdict::Restart
            } else {
                match policy.on_exhausted {
                    ExhaustedAction::ShutdownRuntime => Verdict::ShutDown,
                    ExhaustedAction::Ignore => Verdict::LetGo,
                }
            }
        }),
{
    law_attempts_count_failures(states, events, idx);
}

/// Without a cap on retries, every failure restarts the service.
pub proof fn law_uncapped_restarts<J>(policy: RestartPolicy<J>, attempts: u32)
    requires
        policy.max_retries is None,
    ensures
        verdict(OnError::Restart(policy), attempts) is Restart,
{
}

} // verus!
