//! Shutdown and readiness of a runtime.
use std::time::Duration;

use tokio::sync::watch;
use tokio_util::sync::CancellationToken;
use vstd::prelude::*;

use crate::cancel;
use crate::runtime::readiness::ReadinessSighting;
use crate::runtime::types::{RecordedReason, Runtime, RuntimeHandle, ShutdownReason};
use crate::service::{OnError, RestartPolicy, ServiceContext, ServiceName, ServiceSpec};
use crate::state::StateReceiver;
use crate::util;

verus! {

/// Once shutdown is requested the runtime is shutting down, for the reason that was given
/// last, and every context of it is cancelled; readiness stays as it was.
pub proof fn law_requested_shutdown_is_seen(
    before: RuntimeHandle,
    reason: ShutdownReason,
    after: RuntimeHandle,
    shutting_down: bool,
    seen: ShutdownReason,
    ctx: ServiceContext,
    cancelled: bool,
    name: ServiceName,
    was_ready: bool,
    ready: bool,
)
    requires
        before.wf(),
        exists|rt: &mut RuntimeHandle|
            {
                &&& *rt == before
                &&& #[trigger] call_ensures(RuntimeHandle::request_shutdown, (rt, reason), ())
                &&& *final(rt) == after
            },
        call_ensures(RuntimeHandle::is_shutting_down, (&after,), shutting_down),
        call_ensures(RuntimeHandle::shutdown_reason, (&after,), seen),
        call_ensures(RuntimeHandle::service_context, (&before, name), ctx),
        call_ensures(ServiceContext::is_cancelled, (&ctx, &after), cancelled),
        call_ensures(RuntimeHandle::is_ready, (&before, name), was_ready),
        call_ensures(RuntimeHandle::is_ready, (&after, name), ready),
    ensures
        after.wf(),
        shutting_down,
        seen == reason,
        cancelled,
        ctx.name == name,
        ready == was_ready,
        after@.readiness == before@.readiness,
        after@.shutdown_timeout == before@.shutdown_timeout,
{
}

/// A signal that arrived requests shutdown as a signal; listening that failed does nothing.
pub proof fn law_signal_requests_shutdown(
    before: RuntimeHandle,
    arrived: bool,
    after: RuntimeHandle,
    shutting_down: bool,
    seen: ShutdownReason,
)
    requires
        before.wf(),
        exists|rt: &mut RuntimeHandle|
            {
                &&& *rt == before
                &&& #[trigger] call_ensures(RuntimeHandle::signal_received, (rt, arrived), ())
                &&& *final(rt) == after
            },
        call_ensures(RuntimeHandle::is_shutting_down, (&after,), shutting_down),
        call_ensures(RuntimeHandle::shutdown_reason, (&after,), seen),
    ensures
        arrived ==> shutting_down && seen == ShutdownReason::Signal,
        !arrived ==> after@ == before@,
        after@.readiness == before@.readiness,
        after@.shutdown_timeout == before@.shutdown_timeout,
{
}

/// A reason is what it was after it was kept by its number; numbers that stand for no
/// reason stand for a request.
pub proof fn law_reasons_survive_their_numbers(
    reason: ShutdownReason,
    code: u8,
    back: ShutdownReason,
    other: u8,
    read: ShutdownReason,
    other_reason: ShutdownReason,
    other_code: u8,
)
    requires
        call_ensures(ShutdownReason::as_u8, (reason,), code),
        call_ensures(ShutdownReason::from_u8, (code,), back),
        call_ensures(ShutdownReason::from_u8, (other,), read),
        call_ensures(ShutdownReason::as_u8, (other_reason,), other_code),
    ensures
        back == reason,
        code != 0,
        1 <= code <= 3,
        reason != other_reason ==> code != other_code,
        other == 0 || other > 3 ==> read == ShutdownReason::Requested,
{
}

/// Marking a service makes that one ready, if the runtime knows it, and says whether it
/// does; every other service is as ready as before, and shutdown is not touched.
pub proof fn law_marked_service_is_ready(
    before: RuntimeHandle,
    name: ServiceName,
    known: bool,
    after: RuntimeHandle,
    other: ServiceName,
    was_ready: bool,
    is_ready: bool,
    ready: bool,
)
    requires
        before.wf(),
        exists|rt: &mut RuntimeHandle|
            {
                &&& *rt == before
                &&& #[trigger] call_ensures(RuntimeHandle::mark_ready, (rt, name), known)
                &&& *final(rt) == after
            },
        call_ensures(RuntimeHandle::is_ready, (&after, name), ready),
        call_ensures(RuntimeHandle::is_ready, (&before, other), was_ready),
        call_ensures(RuntimeHandle::is_ready, (&after, other), is_ready),
    ensures
        after.wf(),
        ready == known,
        other@ != name@ ==> is_ready == was_ready,
        was_ready ==> is_ready,
        known <==> before@.readiness.dom().contains(name@),
        after@.readiness.dom() == before@.readiness.dom(),
        after@.token == before@.token && after@.reason == before@.reason,
        after@.shutdown_timeout == before@.shutdown_timeout,
{
    assert(after@.readiness.dom() =~= before@.readiness.dom());
}

/// A context marks the service that it is for, and no other.
pub proof fn law_context_marks_its_own_service(
    ctx: ServiceContext,
    before: RuntimeHandle,
    known: bool,
    after: RuntimeHandle,
    other: ServiceName,
    was_ready: bool,
    is_ready: bool,
    ready: bool,
)
    requires
        before.wf(),
        exists|rt: &mut RuntimeHandle|
            {
                &&& *rt == before
                &&& #[trigger] call_ensures(ServiceContext::mark_ready, (&ctx, rt), known)
                &&& *final(rt) == after
            },
        call_ensures(RuntimeHandle::is_ready, (&after, ctx.name), ready),
        call_ensures(RuntimeHandle::is_ready, (&before, other), was_ready),
        call_ensures(RuntimeHandle::is_ready, (&after, other), is_ready),
    ensures
        ready == known,
        other@ != ctx.name@ ==> is_ready == was_ready,
        was_ready ==> is_ready,
        after@.token == before@.token && after@.reason == before@.reason,
{
}

/// Whoever watches a service that the runtime knows sees it unready until it is marked, and
/// ready from then on, and is notified of the mark; marking another one shows and notifies
/// nothing. A service that the runtime does not know cannot be watched.
pub proof fn law_watcher_sees_the_mark(
    before: RuntimeHandle,
    name: ServiceName,
    watched: RuntimeHandle,
    receiver: Option<StateReceiver<bool>>,
    marked: ServiceName,
    known: bool,
    after: RuntimeHandle,
    was_ready: bool,
    first: ReadinessSighting,
    then_seen: ReadinessSighting,
)
    requires
        before.wf(),
        exists|rt: &mut RuntimeHandle|
            {
                &&& *rt == before
                &&& #[trigger] call_ensures(RuntimeHandle::watch_readiness, (rt, name), receiver)
                &&& *final(rt) == watched
            },
        exists|rt: &mut RuntimeHandle|
            {
                &&& *rt == watched
                &&& #[trigger] call_ensures(RuntimeHandle::mark_ready, (rt, marked), known)
                &&& *final(rt) == after
            },
        call_ensures(RuntimeHandle::is_ready, (&before, name), was_ready),
        receiver matches Some(r) ==> {
            &&& call_ensures(RuntimeHandle::readiness_seen, (&watched, name, &r), first)
            &&& call_ensures(RuntimeHandle::readiness_seen, (&after, name, &r), then_seen)
        },
    ensures
        receiver is Some <==> before@.readiness.dom().contains(name@),
        receiver matches Some(r) ==> {
            &&& first == ReadinessSighting::Flag(was_ready)
            &&& marked@ == name@ ==> then_seen == ReadinessSighting::Flag(true)
            &&& marked@ != name@ ==> then_seen == first
            &&& r@.cell == after@.readiness[name@].cell
            &&& r@.seen == watched@.readiness[name@].notified
            &&& marked@ == name@ ==> after@.readiness[name@].notified == r@.seen + 1
            &&& marked@ != name@ ==> after@.readiness[name@].notified == r@.seen
        },
{
}

/// A new handle knows the readiness of the named services and of no others, none of them
/// ready; it is not shutting down, and drains for as long as it was told to, or for ten
/// seconds where it was not told.
pub proof fn law_new_handle_is_at_rest(
    timeout: Option<Duration>,
    names: &[ServiceName],
    handle: RuntimeHandle,
    shutting_down: bool,
    reason: ShutdownReason,
    drains_for: Duration,
    name: ServiceName,
    ready: bool,
)
    requires
        call_ensures(RuntimeHandle::new, (timeout, names), handle),
        call_ensures(RuntimeHandle::is_shutting_down, (&handle,), shutting_down),
        call_ensures(RuntimeHandle::shutdown_reason, (&handle,), reason),
        call_ensures(RuntimeHandle::shutdown_timeout, (&handle,), drains_for),
        call_ensures(RuntimeHandle::is_ready, (&handle, name), ready),
    ensures
        handle.wf(),
        !shutting_down,
        reason == ShutdownReason::Requested,
        !ready,
        timeout matches Some(d) ==> drains_for == d,
        timeout is None ==> util::duration_nanos(drains_for) == 10_000_000_000,
        handle@.readiness.dom().contains(name@) <==> (exists|i: int|
            0 <= i < names@.len() && (#[trigger] names@[i])@ == name@),
{
    let views = util::name_views(names@);
    assert(!handle@.ready(name@));
    if views.contains(name@) {
        let i = choose|i: int| 0 <= i < views.len() && views[i] == name@;
        assert(names@[i]@ == name@);
    }
    if exists|i: int| 0 <= i < names@.len() && (#[trigger] names@[i])@ == name@ {
        let i = choose|i: int| 0 <= i < names@.len() && (#[trigger] names@[i])@ == name@;
        assert(views[i] == name@);
    }
}

/// Nothing is shutting down, and no context is cancelled, before anyone asked for it: where
/// neither was cancelled and nobody has a clone of either token.
pub proof fn law_nothing_is_cancelled_unasked(
    handle: RuntimeHandle,
    shutting_down: bool,
    name: ServiceName,
    ctx: ServiceContext,
    cancelled: bool,
)
    requires
        handle.wf(),
        !handle@.token.cancelled,
        handle@.token.sole,
        call_ensures(RuntimeHandle::is_shutting_down, (&handle,), shutting_down),
        call_ensures(RuntimeHandle::service_context, (&handle, name), ctx),
        call_ensures(ServiceContext::is_cancelled, (&ctx, &handle), cancelled),
    ensures
        !shutting_down,
        !cancelled,
        ctx.name == name,
{
}

/// Cancelling one service cancels that one, and neither another one nor the runtime.
pub proof fn law_cancelled_service_is_cancelled_alone(
    handle: RuntimeHandle,
    name: ServiceName,
    other: ServiceName,
    ctx: ServiceContext,
    sibling: ServiceContext,
    after: ServiceContext,
    cancelled: bool,
    sibling_cancelled: bool,
    shutting_down: bool,
)
    requires
        handle.wf(),
        !handle@.token.cancelled,
        handle@.token.sole,
        call_ensures(RuntimeHandle::service_context, (&handle, name), ctx),
        call_ensures(RuntimeHandle::service_context, (&handle, other), sibling),
        exists|c: &mut ServiceContext|
            {
                &&& *c == ctx
                &&& #[trigger] call_ensures(ServiceContext::cancel, (c,), ())
                &&& *final(c) == after
            },
        call_ensures(ServiceContext::is_cancelled, (&after, &handle), cancelled),
        call_ensures(ServiceContext::is_cancelled, (&sibling, &handle), sibling_cancelled),
        call_ensures(RuntimeHandle::is_shutting_down, (&handle,), shutting_down),
    ensures
        cancelled,
        !sibling_cancelled,
        !shutting_down,
        after.name == name,
{
}

/// A token that is handed out is the runtime's or the service's own, which was cancelled
/// already where it is known to have been; one for a sub-task stands right below that of
/// the service. Handing a token out changes nothing but that there is a clone of it.
pub proof fn law_tokens_handed_out_are_their_own(
    before: RuntimeHandle,
    root: CancellationToken,
    after: RuntimeHandle,
    ctx: ServiceContext,
    token: CancellationToken,
    left: ServiceContext,
    child: CancellationToken,
)
    requires
        before.wf(),
        exists|rt: &mut RuntimeHandle|
            {
                &&& *rt == before
                &&& #[trigger] call_ensures(RuntimeHandle::cancellation_token, (rt,), root)
                &&& *final(rt) == after
            },
        exists|c: &mut ServiceContext|
            {
                &&& *c == ctx
                &&& #[trigger] call_ensures(ServiceContext::cancellation_token, (c,), token)
                &&& *final(c) == left
            },
        call_ensures(ServiceContext::child_cancel, (&ctx,), child),
    ensures
        cancel::handed_out(root).id == before@.token.id,
        cancel::handed_out(root).ancestors == before@.token.ancestors,
        before@.token.cancelled ==> cancel::handed_out(root).cancelled,
        after.wf(),
        after@.token.id == before@.token.id && after@.token.cancelled == before@.token.cancelled,
        after@.readiness == before@.readiness && after@.reason == before@.reason,
        after@.shutdown_timeout == before@.shutdown_timeout,
        cancel::handed_out(token).id == ctx.token@.id,
        cancel::handed_out(token).ancestors == ctx.token@.ancestors,
        ctx.token@.cancelled ==> cancel::handed_out(token).cancelled,
        left.token@.id == ctx.token@.id && left.token@.cancelled == ctx.token@.cancelled,
        left.name == ctx.name,
        cancel::handed_out(child).ancestors == ctx.token@.ancestors.insert(ctx.token@.id),
        ctx.token@.cancelled ==> cancel::handed_out(child).cancelled,
{
}

/// The reason on record is the one that was recorded last.
pub proof fn law_last_reason_is_on_record(
    first: ShutdownReason,
    recorded: RecordedReason,
    read: ShutdownReason,
    next: ShutdownReason,
    after: RecordedReason,
    reread: ShutdownReason,
)
    requires
        call_ensures(RecordedReason::new, (first,), recorded),
        call_ensures(RecordedReason::load, (&recorded,), read),
        exists|r: &mut RecordedReason|
            {
                &&& *r == recorded
                &&& #[trigger] call_ensures(RecordedReason::store, (r, next), ())
                &&& *final(r) == after
            },
        call_ensures(RecordedReason::load, (&after,), reread),
    ensures
        read == first,
        reread == next,
{
}

/// A receiver that is taken out to wait on is the very one that was watching, and nothing
/// about readiness changes with it.
pub proof fn law_receiver_taken_out_is_the_one_watching(
    before: RuntimeHandle,
    name: ServiceName,
    receiver: StateReceiver<bool>,
    changes: watch::Receiver<bool>,
    after: RuntimeHandle,
    other: ServiceName,
    was_ready: bool,
    ready: bool,
)
    requires
        before.wf(),
        before@.readiness.dom().contains(name@),
        receiver@.cell == before@.readiness[name@].cell,
        exists|rt: &mut RuntimeHandle|
            {
                &&& *rt == before
                &&& #[trigger] call_ensures(
                    RuntimeHandle::readiness_changes,
                    (rt, name, receiver),
                    changes,
                )
                &&& *final(rt) == after
            },
        call_ensures(RuntimeHandle::is_ready, (&before, other), was_ready),
        call_ensures(RuntimeHandle::is_ready, (&after, other), ready),
    ensures
        changes == receiver.inner(),
        after.wf(),
        ready == was_ready,
        after@.token == before@.token && after@.reason == before@.reason,
{
}

/// A runtime is split into the handle and the services that it was made of.
pub proof fn law_runtime_is_what_it_was_made_of<A>(
    handle: RuntimeHandle,
    specs: Vec<ServiceSpec<A>>,
    runtime: Runtime<A>,
    parts: (RuntimeHandle, Vec<ServiceSpec<A>>),
)
    requires
        handle.wf(),
        call_ensures(Runtime::<A>::new, (handle, specs), runtime),
        call_ensures(Runtime::<A>::into_parts, (runtime,), parts),
    ensures
        parts.0.wf(),
        parts.0@ == handle@,
        parts.1@ == specs@,
{
}

/// A failed service shuts the runtime down where no other policy was given, and a copy of a
/// policy is that policy.
pub proof fn law_policies_are_kept<J: Copy>(
    given: OnError<J>,
    copied: OnError<J>,
    by_default: OnError<J>,
    policy: RestartPolicy<J>,
    same: RestartPolicy<J>,
)
    requires
        call_ensures(<OnError<J> as Clone>::clone, (&given,), copied),
        call_ensures(<OnError<J> as Default>::default, (), by_default),
        call_ensures(<RestartPolicy<J> as Clone>::clone, (&policy,), same),
    ensures
        copied == given,
        by_default is ShutdownRuntime,
        same == policy,
{
}

/// The handle of a runtime is the one that the runtime is split into, and what is done with
/// it is done to the runtime; the services stay as they are.
pub proof fn law_handle_is_the_runtimes_own<A>(
    before: Runtime<A>,
    given: RuntimeHandle,
    changed: RuntimeHandle,
    after: Runtime<A>,
    parts: (RuntimeHandle, Vec<ServiceSpec<A>>),
    parts_after: (RuntimeHandle, Vec<ServiceSpec<A>>),
)
    requires
        before.wf(),
        exists|rt: &mut Runtime<A>, handle: &mut RuntimeHandle|
            {
                &&& *rt == before
                &&& #[trigger] call_ensures(Runtime::<A>::handle, (rt,), handle)
                &&& *handle == given
                &&& *final(handle) == changed
                &&& *final(rt) == after
            },
        call_ensures(Runtime::<A>::into_parts, (before,), parts),
        call_ensures(Runtime::<A>::into_parts, (after,), parts_after),
    ensures
        given@ == parts.0@,
        parts_after.0@ == changed@,
        parts_after.1@ == parts.1@,
{
}

} // verus!
