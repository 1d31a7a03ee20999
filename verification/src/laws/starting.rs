//! What a run starts with: each registered service, as it was registered, in an order in
//! which dependencies come first.
use std::time::Duration;

use vstd::prelude::*;

use crate::laws::sorting;
use crate::laws::tasks;
use crate::runtime::dag;
use crate::runtime::dag::{topo_sort, DagError};
use crate::runtime::supervisor;
use crate::runtime::supervisor::{start_services, ServiceState};
use crate::runtime::task::{ServiceTask, TaskAction, TaskEvent};
use crate::runtime::types::RuntimeError;
use crate::service::{OnError, ServiceName, ServiceSpec};

verus! {

/// The state is that of a service that was registered so: it has the same name and adapter,
/// the same dependencies in the same order, a policy that was told of the adapter, and no
/// attempts behind it.
pub open spec fn is_state_of<A, J, F: Fn(&A) -> OnError<J>>(
    state: ServiceState<A, J>,
    spec: ServiceSpec<A>,
    policy_of: &F,
) -> bool {
    &&& state.name@ == spec.name@
    &&& state.adapter == spec.adapter
    &&& state.deps@.len() == spec.deps@.len()
    &&& forall|k: int|
        0 <= k < spec.deps@.len() ==> (#[trigger] state.deps@[k])@ == spec.deps@[k]@
    &&& call_ensures(policy_of, (&spec.adapter,), state.on_error)
    &&& state.attempts == 0
}

/// Services are started exactly where they can be sorted, in the order in which they are
/// sorted, and each of them as it was registered; otherwise what sorting found is reported.
pub proof fn law_services_start_in_sorted_order<A, J, S, F: Fn(&A) -> OnError<J>>(
    specs: Vec<ServiceSpec<A>>,
    slice: &[ServiceSpec<A>],
    policy_of: &F,
    sorted: Result<Vec<usize>, DagError>,
    outcome: Result<Vec<ServiceState<A, J>>, RuntimeError<S>>,
)
    requires
        specs@.len() <= usize::MAX,
        slice@ == specs@,
        call_ensures(topo_sort::<A>, (slice,), sorted),
        call_ensures(start_services::<A, J, S, F>, (specs, policy_of), outcome),
    ensures
        match sorted {
            Ok(order) => {
                &&& outcome matches Ok(states)
                &&& states@.len() == specs@.len()
                &&& forall|p: int|
                    0 <= p < states@.len() ==> is_state_of(
                        #[trigger] states@[p],
                        specs@[order@[p] as int],
                        policy_of,
                    )
            },
            Err(e) => {
                &&& outcome matches Err(RuntimeError::Dag(reported))
                &&& dag::outcome_view(Err(reported)) == dag::outcome_view(Err(e))
            },
        },
{
    let graph = dag::nodes(specs@);
    match outcome {
        Ok(states) => {
            let used = choose|order: Vec<usize>|
                #![trigger dag::sorted(graph, Ok(order))]
                {
                    &&& dag::sorted(graph, Ok(order))
                    &&& supervisor::is_initial(specs@, order@, policy_of, states@)
                };
            dag::law_sort_deterministic(graph, sorted, Ok(used));
            assert forall|p: int| 0 <= p < states@.len() implies is_state_of(
                #[trigger] states@[p],
                specs@[used@[p] as int],
                policy_of,
            ) by {
                assert(states@[p].name == specs@[used@[p] as int].name);
            }
        },
        Err(RuntimeError::Dag(e)) => dag::law_sort_deterministic(graph, sorted, Err(e)),
        Err(_) => {},
    }
}

/// Services are started where every declared dependency is the name of some other service
/// and no chain of dependencies comes back to where it began.
pub proof fn law_sound_services_are_started<A, J, S, F: Fn(&A) -> OnError<J>>(
    specs: Vec<ServiceSpec<A>>,
    policy_of: &F,
    outcome: Result<Vec<ServiceState<A, J>>, RuntimeError<S>>,
)
    requires
        specs@.len() <= usize::MAX,
        call_ensures(start_services::<A, J, S, F>, (specs, policy_of), outcome),
        forall|i: int, k: int|
            #![trigger specs@[i].deps@[k]]
            0 <= i < specs@.len() && 0 <= k < specs@[i].deps@.len() ==> {
                &&& specs@[i].deps@[k]@ != specs@[i].name@
                &&& exists|j: int|
                    0 <= j < specs@.len() && (#[trigger] specs@[j]).name@ == specs@[i].deps@[k]@
            },
        !exists|walk: Seq<int>| #[trigger] sorting::comes_back(specs@, walk),
    ensures
        outcome is Ok,
{
    if let Err(RuntimeError::Dag(e)) = outcome {
        sorting::lemma_sound_services(specs@, Err(e));
    }
}

/// Every started state is that of a registered service, every registered service has one,
/// and each stands after those of its dependencies.
pub proof fn law_every_service_starts_as_registered<A, J, S, F: Fn(&A) -> OnError<J>>(
    specs: Vec<ServiceSpec<A>>,
    policy_of: &F,
    states: Vec<ServiceState<A, J>>,
    p: int,
    i: int,
    k: int,
)
    requires
        specs@.len() <= usize::MAX,
        call_ensures(
            start_services::<A, J, S, F>,
            (specs, policy_of),
            Ok::<Vec<ServiceState<A, J>>, RuntimeError<S>>(states),
        ),
        0 <= p < states@.len(),
        0 <= i < specs@.len(),
    ensures
        states@.len() == specs@.len(),
        exists|j: int|
            0 <= j < specs@.len() && is_state_of(states@[p], #[trigger] specs@[j], policy_of),
        exists|q: int|
            0 <= q < states@.len() && is_state_of(#[trigger] states@[q], specs@[i], policy_of),
        0 <= k < states@[p].deps@.len() ==> exists|q: int|
            0 <= q < p && (#[trigger] states@[q]).name@ == states@[p].deps@[k]@,
{
    let graph = dag::nodes(specs@);
    let order = choose|order: Vec<usize>|
        #![trigger dag::sorted(graph, Ok(order))]
        {
            &&& dag::sorted(graph, Ok(order))
            &&& supervisor::is_initial(specs@, order@, policy_of, states@)
        };
    assert forall|q: int| 0 <= q < states@.len() implies is_state_of(
        #[trigger] states@[q],
        specs@[order@[q] as int],
        policy_of,
    ) by {
        assert(states@[q].name == specs@[order@[q] as int].name);
    }
    sorting::lemma_order_respects_dependencies(specs@, order, p, k);
    assert(is_state_of(states@[p], specs@[order@[p] as int], policy_of));
    assert(order@.contains(i as usize));
    let q = choose|q: int| 0 <= q < order@.len() && order@[q] == i;
    assert(is_state_of(states@[q], specs@[i], policy_of));
    if 0 <= k < states@[p].deps@.len() {
        let v = order@[p] as int;
        let before = choose|q: int|
            0 <= q < p && #[trigger] sorting::refers_to(specs@, v, k, order@[q] as int);
        assert(is_state_of(states@[before], specs@[order@[before] as int], policy_of));
        assert(states@[p].deps@[k]@ == specs@[v].deps@[k]@);
        assert(states@[before].name@ == states@[p].deps@[k]@);
    }
}

/// A service that was started runs only once each dependency that it was registered with
/// was waited for and reported ready, in the order of declaration, after its backoff.
///
/// `tasks` are a task made from the state of the service and what it is after each of
/// `events`; the `t`-th one has come to run the service.
pub proof fn law_started_service_waits_for_every_declared_dependency<
    A,
    J,
    F: Fn(&A) -> OnError<J>,
>(
    state: ServiceState<A, J>,
    spec: ServiceSpec<A>,
    policy_of: &F,
    deps: &[ServiceName],
    delay: Option<Duration>,
    tasks: Seq<ServiceTask>,
    events: Seq<TaskEvent>,
    t: int,
    k: int,
    waited: TaskAction,
)
    requires
        is_state_of(state, spec, policy_of),
        deps@ == state.deps@,
        tasks.len() == events.len() + 1,
        call_ensures(ServiceTask::new, (deps, delay), tasks[0]),
        forall|c: int|
            0 <= c < events.len() ==> exists|task: &mut ServiceTask|
                {
                    &&& *task == #[trigger] tasks[c]
                    &&& call_ensures(ServiceTask::advance, (task, events[c]), ())
                    &&& *final(task) == tasks[c + 1]
                },
        forall|c: int|
            0 <= c < events.len() && (#[trigger] events[c]) is Done ==> exists|wait: TaskAction|
                {
                    &&& #[trigger] call_ensures(ServiceTask::action, (&tasks[c],), wait)
                    &&& wait is Sleep || wait is AwaitReady
                },
        0 <= t <= events.len(),
        call_ensures(ServiceTask::action, (&tasks[t],), TaskAction::Run),
        0 <= k < spec.deps@.len(),
        call_ensures(
            ServiceTask::action,
            (&tasks[k + tasks::first_wait(delay)],),
            waited,
        ),
    ensures
        k + tasks::first_wait(delay) < t,
        waited matches TaskAction::AwaitReady(dep) && dep@ == spec.deps@[k]@,
        events[k + tasks::first_wait(delay)] is Done,
{
    let at = k + tasks::first_wait(delay);
    tasks::law_task_waits_for_everything_declared(deps, delay, tasks, events, t, TaskAction::Run);
    assert(at < t);
    assert(!tasks::cancelled_before(events, at)) by {
        if tasks::cancelled_before(events, at) {
            let c = choose|c: int| 0 <= c < at && (#[trigger] events[c]) is Cancelled;
            assert(tasks::cancelled_before(events, t));
        }
    }
    tasks::law_task_waits_for_everything_declared(deps, delay, tasks, events, at, waited);
    if events[at] is Cancelled {
        assert(tasks::cancelled_before(events, t));
    }
    assert(state.deps@[k]@ == spec.deps@[k]@);
}

} // verus!
