//! What a service's task waits for before the service runs.
use std::time::Duration;

use vstd::prelude::*;

use crate::runtime::readiness::{wait_is_over, ReadinessSighting};
use crate::runtime::task::{wait_report, ServiceTask, TaskAction, TaskEvent};
use crate::service::ServiceName;
use crate::util;

verus! {

/// How many waits come before those for dependencies: one where there is a backoff.
pub open spec fn first_wait(delay: Option<Duration>) -> int {
    if delay is Some {
        1
    } else {
        0
    }
}

/// Shutdown was requested among the first `t` events.
pub open spec fn cancelled_before(events: Seq<TaskEvent>, t: int) -> bool {
    exists|c: int| 0 <= c < t && (#[trigger] events[c]) is Cancelled
}

/// What a task is after `t` events.
proof fn lemma_task_after(
    deps: &[ServiceName],
    delay: Option<Duration>,
    tasks: Seq<ServiceTask>,
    events: Seq<TaskEvent>,
    t: int,
)
    requires
        tasks.len() == events.len() + 1,
        call_ensures(ServiceTask::new, (deps, delay), tasks[0]),
        forall|c: int|
            0 <= c < events.len() ==> exists|task: &mut ServiceTask|
                {
                    &&& *task == #[trigger] tasks[c]
                    &&& call_ensures(ServiceTask::advance, (task, events[c]), ())
                    &&& *final(task) == tasks[c + 1]
                },
        forall|c: int|
            0 <= c < events.len() && (#[trigger] events[c]) is Done ==> exists|action: TaskAction|
                {
                    &&& #[trigger] call_ensures(ServiceTask::action, (&tasks[c],), action)
                    &&& action is Sleep || action is AwaitReady
                },
        0 <= t <= events.len(),
    ensures
        cancelled_before(events, t) ==> tasks[t]@.exited,
        !cancelled_before(events, t) ==> {
            &&& !tasks[t]@.exited
            &&& t <= first_wait(delay) + deps@.len()
            &&& tasks[t]@.delay == if t < first_wait(delay) {
                delay
            } else {
                None
            }
            &&& tasks[t]@.waiting_for == if t < first_wait(delay) {
                util::name_views(deps@)
            } else {
                util::name_views(deps@).skip(t - first_wait(delay))
            }
        },
    decreases t,
{
    let names = util::name_views(deps@);
    if t == 0 {
        assert(names.skip(0) =~= names);
    } else {
        let c = t - 1;
        lemma_task_after(deps, delay, tasks, events, c);
        assert(tasks[c] == tasks[c]);
        let task = choose|task: &mut ServiceTask|
            {
                &&& *task == tasks[c]
                &&& call_ensures(ServiceTask::advance, (task, events[c]), ())
                &&& *final(task) == tasks[c + 1]
            };
        assert(tasks[t]@ == tasks[c]@.after(events[c]));
        if cancelled_before(events, c) {
            let x = choose|x: int| 0 <= x < c && (#[trigger] events[x]) is Cancelled;
            assert(cancelled_before(events, t));
        } else if events[c] is Cancelled {
            assert(cancelled_before(events, t));
        } else {
            assert(!cancelled_before(events, t)) by {
                if cancelled_before(events, t) {
                    let x = choose|x: int| 0 <= x < t && (#[trigger] events[x]) is Cancelled;
                    assert(x < c);
                }
            }
            let action = choose|action: TaskAction|
                {
                    &&& #[trigger] call_ensures(ServiceTask::action, (&tasks[c],), action)
                    &&& action is Sleep || action is AwaitReady
                };
            if c >= first_wait(delay) {
                assert(names.skip(c - first_wait(delay)).drop_first() =~= names.skip(
                    t - first_wait(delay),
                ));
            } else {
                assert(names.skip(0) =~= names);
            }
        }
    }
}

/// A new task first sleeps out its backoff, if it has one, then waits for each declared
/// dependency in turn, every one of them, and only then runs the service; once shutdown was
/// requested it exits.
///
/// `tasks` are a new task and what it is after each of `events`. That a wait is done is
/// reported only where there is one.
pub proof fn law_task_waits_for_everything_declared(
    deps: &[ServiceName],
    delay: Option<Duration>,
    tasks: Seq<ServiceTask>,
    events: Seq<TaskEvent>,
    t: int,
    action: TaskAction,
)
    requires
        tasks.len() == events.len() + 1,
        call_ensures(ServiceTask::new, (deps, delay), tasks[0]),
        forall|c: int|
            0 <= c < events.len() ==> exists|task: &mut ServiceTask|
                {
                    &&& *task == #[trigger] tasks[c]
                    &&& call_ensures(ServiceTask::advance, (task, events[c]), ())
                    &&& *final(task) == tasks[c + 1]
                },
        forall|c: int|
            0 <= c < events.len() && (#[trigger] events[c]) is Done ==> exists|wait: TaskAction|
                {
                    &&& #[trigger] call_ensures(ServiceTask::action, (&tasks[c],), wait)
                    &&& wait is Sleep || wait is AwaitReady
                },
        0 <= t <= events.len(),
        call_ensures(ServiceTask::action, (&tasks[t],), action),
    ensures
        action is Exit <==> cancelled_before(events, t),
        !cancelled_before(events, t) ==> {
            &&& t < first_wait(delay) ==> action == TaskAction::Sleep(delay->0)
            &&& first_wait(delay) <= t < first_wait(delay) + deps@.len() ==> {
                &&& action matches TaskAction::AwaitReady(dep)
                &&& dep@ == deps@[t - first_wait(delay)]@
            }
            &&& action is Run <==> t == first_wait(delay) + deps@.len()
            &&& t <= first_wait(delay) + deps@.len()
        },
{
    lemma_task_after(deps, delay, tasks, events, t);
}

/// A wait for a service is over where the service is unknown, where its flag is set and
/// where its flag is gone, and is then reported done; while the flag is not set it is not.
pub proof fn law_wait_ends_unless_the_flag_is_unset(
    seen: ReadinessSighting,
    over: bool,
    report: Option<TaskEvent>,
)
    requires
        call_ensures(wait_is_over, (seen,), over),
        call_ensures(wait_report, (seen,), report),
    ensures
        match seen {
            ReadinessSighting::Unregistered => over && report == Some(TaskEvent::Done),
            ReadinessSighting::Closed => over && report == Some(TaskEvent::Done),
            ReadinessSighting::Flag(ready) => over == ready && report is Some == ready,
        },
        report matches Some(event) ==> event is Done,
{
}

} // verus!
