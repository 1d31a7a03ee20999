//! What a service's task goes through before the service runs.
use std::time::Duration;

use vstd::prelude::*;

use crate::runtime::readiness;
use crate::runtime::readiness::ReadinessSighting;
use crate::runtime::types::RuntimeState;
use crate::service::ServiceName;
use crate::util;

verus! {

/// The steps a service's task has before it: wait out the restart backoff, if any;
/// wait until each declared dependency is ready, one after the other; then run the
/// service. Shutdown ends it at any point before that.
pub struct ServiceTask {
    delay: Option<Duration>,
    deps: Vec<ServiceName>,
    next: usize,
    exited: bool,
}

/// What a task still has to go through.
pub struct TaskState {
    /// The restart backoff to wait out, if any.
    pub delay: Option<Duration>,
    /// The dependencies to wait for, in this order.
    pub waiting_for: Seq<Seq<char>>,
    /// The task ended without running the service.
    pub exited: bool,
}

/// What a task does next.
pub enum TaskAction {
    /// Sleep for this long.
    Sleep(Duration),
    /// Wait until this service is ready.
    AwaitReady(ServiceName),
    /// Run the service.
    Run,
    /// Exit gracefully without running the service.
    Exit,
}

/// What can end a step of a task.
pub enum TaskEvent {
    /// The sleep is over, or the dependency is ready.
    Done,
    /// Shutdown was requested.
    Cancelled,
}

impl TaskState {
    /// A task with nothing done yet.
    pub open spec fn new(deps: Seq<Seq<char>>, delay: Option<Duration>) -> TaskState {
        TaskState { delay, waiting_for: deps, exited: false }
    }

    /// The task has come to run the service.
    pub open spec fn runs(self) -> bool {
        !self.exited && self.delay is None && self.waiting_for.len() == 0
    }

    /// The state after an event.
    pub open spec fn after(self, event: TaskEvent) -> TaskState {
        match event {
            TaskEvent::Cancelled => TaskState { exited: true, ..self },
            TaskEvent::Done => if self.delay is Some {
                TaskState { delay: None, ..self }
            } else {
                TaskState { waiting_for: self.waiting_for.drop_first(), ..self }
            },
        }
    }

    /// The state after a number of events.
    pub open spec fn after_all(self, events: Seq<TaskEvent>) -> TaskState
        decreases events.len(),
    {
        if events.len() == 0 {
            self
        } else {
            self.after_all(events.drop_last()).after(events.last())
        }
    }
}

impl View for ServiceTask {
    type V = TaskState;

    closed spec fn view(&self) -> TaskState {
        TaskState {
            delay: self.delay,
            waiting_for: util::name_views(self.deps@).skip(self.next as int),
            exited: self.exited,
        }
    }
}

impl ServiceTask {
    #[verifier::type_invariant]
    spec fn in_bounds(&self) -> bool {
        self.next <= self.deps@.len()
    }

    /// The task of a service with these dependencies, for either a fresh start
    /// (`delay` is `None`) or a restart (`delay` is the backoff).
    pub fn new(deps: &[ServiceName], delay: Option<Duration>) -> (task: Self)
        ensures
            task@ == TaskState::new(util::name_views(deps@), delay),
    {
        let mut names: Vec<ServiceName> = Vec::new();
        let mut i: usize = 0;
        while i < deps.len()
            invariant
                i <= deps@.len(),
                names@ == deps@.take(i as int),
            decreases deps@.len() - i,
        {
            names.push(deps[i]);
            i += 1;
            assert(names@ =~= deps@.take(i as int));
        }
        assert(names@ =~= deps@);
        let task = ServiceTask { delay, deps: names, next: 0, exited: false };
        assert(task@.waiting_for =~= util::name_views(deps@));
        task
    }

    /// What the task does next.
    pub fn action(&self) -> (action: TaskAction)
        ensures
            self@.exited ==> action is Exit,
            !self@.exited ==> match self@.delay {
                Some(d) => action == TaskAction::Sleep(d),
                None => if self@.waiting_for.len() > 0 {
                    action matches TaskAction::AwaitReady(dep) && dep@ == self@.waiting_for[0]
                } else {
                    action is Run
                },
            },
    {
        proof {
            use_type_invariant(self);
        }
        if self.exited {
            return TaskAction::Exit;
        }
        match self.delay {
            Some(d) => TaskAction::Sleep(d),
            None => if self.next < self.deps.len() {
                assert(self@.waiting_for[0] == self.deps@[self.next as int]@);
                TaskAction::AwaitReady(self.deps[self.next])
            } else {
                TaskAction::Run
            },
        }
    }

    /// Go on from an event. Nothing is waited for, and so nothing can be done, once
    /// the service runs or the task has exited.
    pub fn advance(&mut self, event: TaskEvent)
        requires
            event is Done ==> !old(self)@.exited && !old(self)@.runs(),
        ensures
            final(self)@ == old(self)@.after(event),
    {
        proof {
            use_type_invariant(&*self);
        }
        match event {
            TaskEvent::Cancelled => {
                self.exited = true;
            },
            TaskEvent::Done => if self.delay.is_some() {
                self.delay = None;
            } else if self.next < self.deps.len() {
                let ghost before = self@.waiting_for;
                self.next = self.next + 1;
                assert(self@.waiting_for =~= before.drop_first());
            },
        }
    }
}

/// What is reported to a task that waits for a service, from what was seen of the
/// service: that the wait is done, where it is over, and nothing before.
pub fn wait_report(seen: ReadinessSighting) -> (report: Option<TaskEvent>)
    ensures
        report is Some <==> readiness::ends_wait(seen),
        report matches Some(event) ==> event is Done,
{
    if readiness::wait_is_over(seen) {
        Some(TaskEvent::Done)
    } else {
        None
    }
}

/// A sequence of events that a new task can go through: nothing is reported done
/// where nothing is waited for.
pub open spec fn possible(
    deps: Seq<Seq<char>>,
    delay: Option<Duration>,
    events: Seq<TaskEvent>,
) -> bool
    decreases events.len(),
{
    if events.len() == 0 {
        true
    } else {
        let at = TaskState::new(deps, delay).after_all(events.drop_last());
        &&& possible(deps, delay, events.drop_last())
        &&& events.last() is Done ==> !at.exited && !at.runs()
    }
}

/// Shutdown was requested among these events.
pub open spec fn cancelled_among(events: Seq<TaskEvent>) -> bool {
    exists|t: int| 0 <= t < events.len() && (#[trigger] events[t]) is Cancelled
}

/// How many waits a task goes through before the service runs.
pub open spec fn waits(deps: Seq<Seq<char>>, delay: Option<Duration>) -> nat {
    deps.len() + if delay is Some {
        1nat
    } else {
        0nat
    }
}

proof fn lemma_progress(deps: Seq<Seq<char>>, delay: Option<Duration>, events: Seq<TaskEvent>)
    requires
        possible(deps, delay, events),
    ensures
        ({
            let state = TaskState::new(deps, delay).after_all(events);
            &&& state.exited == cancelled_among(events)
            &&& !state.exited ==> {
                &&& events.len() <= waits(deps, delay)
                &&& state.delay == if events.len() == 0 {
                    delay
                } else {
                    None
                }
                &&& state.waiting_for == if events.len() == 0 {
                    deps
                } else {
                    deps.skip(events.len() - (waits(deps, delay) - deps.len()))
                }
            }
        }),
    decreases events.len(),
{
    if events.len() > 0 {
        let earlier = events.drop_last();
        let last = events.len() - 1;
        lemma_progress(deps, delay, earlier);
        let before = TaskState::new(deps, delay).after_all(earlier);
        assert(cancelled_among(events) <==> cancelled_among(earlier) || events.last() is Cancelled)
            by {
            if cancelled_among(earlier) {
                let t = choose|t: int|
                    0 <= t < earlier.len() && (#[trigger] earlier[t]) is Cancelled;
                assert(events[t] is Cancelled);
            }
            if cancelled_among(events) && !(events.last() is Cancelled) {
                let t = choose|t: int| 0 <= t < events.len() && (#[trigger] events[t]) is Cancelled;
                assert(earlier[t] is Cancelled);
            }
            assert(events[last] == events.last());
        }
        assert(events[last] == events.last());
        if events.last() is Done {
            let done = events.len() - (waits(deps, delay) - deps.len());
            if before.delay is Some {
                assert(deps.skip(done) =~= deps);
            } else {
                assert(before.waiting_for.drop_first() =~= deps.skip(done));
            }
        }
    }
}

/// A service runs exactly when its backoff is over and every one of its
/// dependencies was reported ready, without shutdown being requested meanwhile.
pub proof fn law_run_waits_for_every_dependency(
    deps: Seq<Seq<char>>,
    delay: Option<Duration>,
    events: Seq<TaskEvent>,
)
    requires
        possible(deps, delay, events),
    ensures
        TaskState::new(deps, delay).after_all(events).runs() <==> !cancelled_among(events)
            && events.len() == waits(deps, delay),
{
    lemma_progress(deps, delay, events);
}

/// Each report that a dependency is ready was made from what was seen of it: at the
/// `t`-th event, the runtime was in the `t`-th state.
pub open spec fn reported_from(
    deps: Seq<Seq<char>>,
    delay: Option<Duration>,
    events: Seq<TaskEvent>,
    states: Seq<RuntimeState>,
) -> bool {
    &&& states.len() == events.len()
    &&& forall|t: int| #![trigger events[t]]
        {
            let at = TaskState::new(deps, delay).after_all(events.take(t));
            0 <= t < events.len() && events[t] is Done && at.delay is None
                ==> readiness::ends_wait(
                readiness::sighting_of(states[t].readiness, at.waiting_for[0]),
            )
        }
}

proof fn lemma_possible_prefix(
    deps: Seq<Seq<char>>,
    delay: Option<Duration>,
    events: Seq<TaskEvent>,
    t: int,
)
    requires
        possible(deps, delay, events),
        0 <= t <= events.len(),
    ensures
        possible(deps, delay, events.take(t)),
    decreases events.len(),
{
    if t == events.len() {
        assert(events.take(t) =~= events);
    } else {
        lemma_possible_prefix(deps, delay, events.drop_last(), t);
        assert(events.drop_last().take(t) =~= events.take(t));
    }
}

/// A service runs only where each of its dependencies was ready, or unknown to the
/// runtime, at the moment its wait was reported done; as readiness is kept, each still is
/// at the moment of the last report.
pub proof fn law_run_finds_every_dependency_ready(
    deps: Seq<Seq<char>>,
    delay: Option<Duration>,
    events: Seq<TaskEvent>,
    states: Seq<RuntimeState>,
    k: int,
)
    requires
        possible(deps, delay, events),
        reported_from(deps, delay, events, states),
        TaskState::new(deps, delay).after_all(events).runs(),
        0 <= k < deps.len(),
    ensures
        ({
            let t = k + waits(deps, delay) - deps.len();
            &&& 0 <= t < states.len()
            &&& !states[t].readiness.dom().contains(deps[k]) || states[t].ready(deps[k])
            &&& states[t].readiness_kept(states.last()) ==> !states.last().readiness.dom().contains(
                deps[k],
            ) || states.last().ready(deps[k])
        }),
{
    let t = k + waits(deps, delay) - deps.len();
    lemma_progress(deps, delay, events);
    lemma_possible_prefix(deps, delay, events, t);
    let before = events.take(t);
    assert(!cancelled_among(before)) by {
        if cancelled_among(before) {
            let c = choose|c: int| 0 <= c < before.len() && (#[trigger] before[c]) is Cancelled;
            assert(events[c] is Cancelled);
        }
    }
    law_dependencies_awaited_in_order(deps, delay, before, k);
    assert(!(events[t] is Cancelled));
}

/// A task that shutdown finds waiting exits without running the service.
pub proof fn law_cancelled_task_exits(
    deps: Seq<Seq<char>>,
    delay: Option<Duration>,
    events: Seq<TaskEvent>,
)
    requires
        possible(deps, delay, events),
    ensures
        TaskState::new(deps, delay).after_all(events).exited <==> cancelled_among(events),
{
    lemma_progress(deps, delay, events);
}

/// Dependencies are waited for one after the other, in the order in which they are
/// declared, after the backoff.
pub proof fn law_dependencies_awaited_in_order(
    deps: Seq<Seq<char>>,
    delay: Option<Duration>,
    events: Seq<TaskEvent>,
    k: int,
)
    requires
        possible(deps, delay, events),
        !cancelled_among(events),
        0 <= k < deps.len(),
        events.len() == k + waits(deps, delay) - deps.len(),
    ensures
        ({
            let state = TaskState::new(deps, delay).after_all(events);
            &&& state.delay is None
            &&& state.waiting_for.len() > 0
            &&& state.waiting_for[0] == deps[k]
        }),
{
    lemma_progress(deps, delay, events);
}

} // verus!
