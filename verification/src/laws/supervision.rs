//! What follows when services exit or fail, and what a run comes to.
use std::time::Duration;

use vstd::prelude::*;

use crate::laws::delays;
use crate::runtime::backoff::exponential_backoff;
use crate::runtime::supervisor::{
    drain_outcome, handle_failure, run_outcome, supervision_step, Action, Event, Reaction,
    ServiceState,
};
use crate::runtime::types::{RuntimeError, RuntimeHandle, RuntimeState, ShutdownReason};
use crate::service::{DynServiceError, ExhaustedAction, OnError};

verus! {

/// The runtime was told to shut down because a service failed, and is otherwise as before.
pub open spec fn shut_down(before: RuntimeState, after: RuntimeState) -> bool {
    &&& after.token.cancelled
    &&& after.reason == ShutdownReason::ServiceFailed
    &&& after.token.id == before.token.id
    &&& after.token.ancestors == before.token.ancestors
    &&& after.token.sole == before.token.sole
    &&& after.shutdown_timeout == before.shutdown_timeout
    &&& after.readiness == before.readiness
}

/// The service is started again after another failure: its policy says to restart it, and
/// has retries left. As many as can be counted are never used up.
pub open spec fn has_retries<A, J>(state: ServiceState<A, J>) -> bool {
    &&& state.on_error matches OnError::Restart(policy)
    &&& policy.max_retries matches Some(max) ==> state.attempts < max || max == u32::MAX
}

/// The failure of a service ends the run: its policy says so, or says so of a service
/// that has no retries left.
pub open spec fn is_fatal<A, J>(state: ServiceState<A, J>) -> bool {
    match state.on_error {
        OnError::ShutdownRuntime => true,
        OnError::Ignore => false,
        OnError::Restart(policy) => !has_retries(state) && policy.on_exhausted
            == ExhaustedAction::ShutdownRuntime,
    }
}

/// The attempt that comes after so many, as far as they can be counted.
pub open spec fn counts_on(attempts: u32, attempt: u32) -> bool {
    attempt == attempts + 1 || (attempts == u32::MAX && attempt == u32::MAX)
}

/// Only the attempts of a service that failed are counted up, and only where its policy
/// is to restart it; nothing else about it, and nothing about the others, changes.
pub open spec fn counts_the_failure<A, J>(
    before: Seq<ServiceState<A, J>>,
    after: Seq<ServiceState<A, J>>,
    idx: int,
) -> bool {
    &&& after.len() == before.len()
    &&& forall|i: int| 0 <= i < before.len() && i != idx ==> #[trigger] after[i] == before[i]
    &&& after[idx].name == before[idx].name
    &&& after[idx].deps == before[idx].deps
    &&& after[idx].adapter == before[idx].adapter
    &&& after[idx].on_error == before[idx].on_error
    &&& before[idx].on_error is Restart && before[idx].attempts < u32::MAX ==> after[idx].attempts
        == before[idx].attempts + 1
    &&& !(before[idx].on_error is Restart && before[idx].attempts < u32::MAX)
        ==> after[idx].attempts == before[idx].attempts
}

/// A failure is met by the policy of the service that failed: that very service is started
/// again while it has retries left, the run ends with the service's own error where the
/// failure is fatal, and otherwise the service is let go.
pub proof fn law_failure_is_met_by_the_policy<A, J, S, F: Fn(&J, u64) -> u64>(
    states: Vec<ServiceState<A, J>>,
    handle: RuntimeHandle,
    idx: usize,
    err: DynServiceError<S>,
    spread_of: &F,
    action: Action<S>,
    after: Vec<ServiceState<A, J>>,
    left: RuntimeHandle,
)
    requires
        idx < states@.len(),
        handle.wf(),
        exists|st: &mut Vec<ServiceState<A, J>>, rt: &mut RuntimeHandle|
            {
                &&& *st == states
                &&& *rt == handle
                &&& #[trigger] call_ensures(
                    supervision_step::<A, J, S, F>,
                    (st, rt, Event::Failed(idx, err), spread_of),
                    action,
                )
                &&& *final(st) == after
                &&& *final(rt) == left
            },
    ensures
        left.wf(),
        has_retries(states@[idx as int]) <==> action is Restart,
        action matches Action::Restart { idx: restarted, .. } ==> restarted == idx,
        is_fatal(states@[idx as int]) <==> action is Stop,
        action matches Action::Stop(outcome) ==> outcome == Err::<(), RuntimeError<S>>(
            RuntimeError::ServiceFailed(err),
        ),
        is_fatal(states@[idx as int]) ==> shut_down(handle@, left@),
        !is_fatal(states@[idx as int]) ==> left@ == handle@,
        counts_the_failure(states@, after@, idx as int),
{
}

/// The delay before a service is started again is that of its policy for as many attempts
/// as have been made with this one, within the spread of its jitter.
pub proof fn law_restart_waits_out_the_backoff<A, J, S, F: Fn(&J, u64) -> u64>(
    states: Vec<ServiceState<A, J>>,
    handle: RuntimeHandle,
    idx: usize,
    err: DynServiceError<S>,
    spread_of: &F,
    restarted: usize,
    delay: Duration,
    attempt: u32,
    plain: Duration,
)
    requires
        idx < states@.len(),
        states@[idx as int].on_error is Restart,
        counts_on(states@[idx as int].attempts, attempt),
        exists|st: &mut Vec<ServiceState<A, J>>, rt: &mut RuntimeHandle|
            {
                &&& *st == states
                &&& *rt == handle
                &&& #[trigger] call_ensures(
                    supervision_step::<A, J, S, F>,
                    (st, rt, Event::Failed(idx, err), spread_of),
                    Action::Restart { idx: restarted, delay },
                )
            },
        call_ensures(
            exponential_backoff::<J>,
            (&states@[idx as int].on_error->Restart_0, attempt),
            plain,
        ),
    ensures
        ({
            let policy = states@[idx as int].on_error->Restart_0;
            exists|ms: u64, spread: u64| #[trigger]
                call_ensures(spread_of, (&policy.jitter, ms), spread) && delays::counts_millis(
                    plain,
                    ms,
                ) && delays::lies_within(plain, spread, delay)
        }),
{
    let state = states@[idx as int];
    delays::lemma_backoff_lies_within(
        state.on_error->Restart_0,
        attempt,
        spread_of,
        plain,
        delay,
    );
}

/// What is no failure changes nothing about the services: a graceful exit is final, the
/// run ends well when shutdown was requested or no service is left, and with an error of
/// no known service where a task was lost.
pub proof fn law_other_events_leave_services_as_they_are<A, J, S, F: Fn(&J, u64) -> u64>(
    states: Vec<ServiceState<A, J>>,
    handle: RuntimeHandle,
    event: Event<S>,
    spread_of: &F,
    action: Action<S>,
    after: Vec<ServiceState<A, J>>,
    left: RuntimeHandle,
)
    requires
        handle.wf(),
        !(event is Failed),
        exists|st: &mut Vec<ServiceState<A, J>>, rt: &mut RuntimeHandle|
            {
                &&& *st == states
                &&& *rt == handle
                &&& #[trigger] call_ensures(
                    supervision_step::<A, J, S, F>,
                    (st, rt, event, spread_of),
                    action,
                )
                &&& *final(st) == after
                &&& *final(rt) == left
            },
    ensures
        left.wf(),
        after@ == states@,
        match event {
            Event::Exited(_) => action is Wait && left@ == handle@,
            Event::ShutdownRequested | Event::AllExited => {
                &&& action matches Action::Stop(outcome)
                &&& outcome is Ok
                &&& left@ == handle@
            },
            Event::Lost(source) => {
                &&& action matches Action::Stop(Err(RuntimeError::ServiceFailed(err)))
                &&& err.source == source
                &&& err.service@ == "<unknown>"@
                &&& shut_down(handle@, left@)
            },
            Event::Failed(_, _) => true,
        },
{
}

/// Handling a failure comes to the same as a round of supervision that finds it: the
/// policy of the service that failed decides.
pub proof fn law_failure_is_handled_by_the_policy<A, J, S, F: Fn(&J, u64) -> u64>(
    states: Vec<ServiceState<A, J>>,
    handle: RuntimeHandle,
    idx: usize,
    err: DynServiceError<S>,
    spread_of: &F,
    reaction: Reaction<S>,
    after: Vec<ServiceState<A, J>>,
    left: RuntimeHandle,
    attempt: u32,
    plain: Duration,
)
    requires
        idx < states@.len(),
        handle.wf(),
        exists|st: &mut Vec<ServiceState<A, J>>, rt: &mut RuntimeHandle|
            {
                &&& *st == states
                &&& *rt == handle
                &&& #[trigger] call_ensures(
                    handle_failure::<A, J, S, F>,
                    (st, rt, idx, err, spread_of),
                    reaction,
                )
                &&& *final(st) == after
                &&& *final(rt) == left
            },
    ensures
        left.wf(),
        has_retries(states@[idx as int]) <==> reaction is Restart,
        is_fatal(states@[idx as int]) <==> reaction is Escalate,
        reaction matches Reaction::Escalate(error) ==> error == RuntimeError::ServiceFailed(err),
        is_fatal(states@[idx as int]) ==> shut_down(handle@, left@),
        !is_fatal(states@[idx as int]) ==> left@ == handle@,
        counts_the_failure(states@, after@, idx as int),
        reaction is Restart && counts_on(states@[idx as int].attempts, attempt) && call_ensures(
            exponential_backoff::<J>,
            (&states@[idx as int].on_error->Restart_0, attempt),
            plain,
        ) ==> exists|ms: u64, spread: u64| #[trigger]
            call_ensures(
                spread_of,
                (&states@[idx as int].on_error->Restart_0.jitter, ms),
                spread,
            ) && delays::counts_millis(plain, ms) && delays::lies_within(
                plain,
                spread,
                reaction->Restart_0,
            ),
{
    let state = states@[idx as int];
    if reaction is Restart && counts_on(state.attempts, attempt) && call_ensures(
        exponential_backoff::<J>,
        (&state.on_error->Restart_0, attempt),
        plain,
    ) {
        delays::lemma_backoff_lies_within(
            state.on_error->Restart_0,
            attempt,
            spread_of,
            plain,
            reaction->Restart_0,
        );
    }
}

/// A run comes to the error that ended it, whatever draining came to; without one, to what
/// draining came to, which is an error exactly where services were left at the timeout.
pub proof fn law_run_comes_to_its_first_error<S>(
    ended: Result<(), RuntimeError<S>>,
    drained: bool,
    timeout: Duration,
    drain: Result<(), RuntimeError<S>>,
    outcome: Result<(), RuntimeError<S>>,
)
    requires
        call_ensures(drain_outcome::<S>, (drained, timeout), drain),
        call_ensures(run_outcome::<S>, (ended, drain), outcome),
    ensures
        drain is Ok <==> drained,
        drain matches Err(e) ==> e == RuntimeError::<S>::ShutdownTimeout(timeout),
        ended is Err ==> outcome == ended,
        ended is Ok && !drained ==> outcome == Err::<(), RuntimeError<S>>(
            RuntimeError::ShutdownTimeout(timeout),
        ),
        ended is Ok && drained ==> outcome is Ok,
{
}

} // verus!
