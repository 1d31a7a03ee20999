//! What is registered is what a runtime is made of.
use std::time::Duration;

use vstd::prelude::*;

use crate::laws::sorting;
use crate::runtime::builder;
use crate::runtime::builder::RuntimeBuilder;
use crate::runtime::dag;
use crate::runtime::types::{Runtime, RuntimeHandle};
use crate::service::{ServiceName, ServiceSpec, ServiceStartError};
use crate::util;
use crate::util::dedup_preserve_order;

verus! {

/// `kept` are the names in `items`, each of them once, in the order in which they first
/// occur.
pub open spec fn without_repeats(items: Seq<ServiceName>, kept: Seq<ServiceName>) -> bool {
    &&& forall|name: Seq<char>| #[trigger]
        sorting::reported(kept, name) <==> sorting::reported(items, name)
    &&& forall|a: int, b: int|
        0 <= a < b < kept.len() ==> (#[trigger] kept[a])@ != (#[trigger] kept[b])@
    &&& forall|a: int, b: int|
        0 <= a < b < kept.len() ==> occurs_first(
            items,
            (#[trigger] kept[a])@,
            (#[trigger] kept[b])@,
        )
}

/// `first` occurs in `items` before `second` does.
pub open spec fn occurs_first(
    items: Seq<ServiceName>,
    first: Seq<char>,
    second: Seq<char>,
) -> bool {
    exists|i: int|
        {
            &&& 0 <= i < items.len()
            &&& (#[trigger] items[i])@ == first
            &&& forall|j: int| 0 <= j <= i ==> (#[trigger] items[j])@ != second
        }
}

proof fn lemma_without_repeats(items: Seq<ServiceName>, kept: Seq<ServiceName>)
    requires
        util::name_views(kept) == util::first_occurrences(util::name_views(items)),
    ensures
        without_repeats(items, kept),
{
    let all = util::name_views(items);
    let once = util::name_views(kept);
    util::lemma_first_occurrences_members(all);
    assert forall|a: int| 0 <= a < kept.len() implies (#[trigger] kept[a])@ == once[a] by {}
    assert forall|i: int| 0 <= i < items.len() implies (#[trigger] items[i])@ == all[i] by {}
    assert forall|name: Seq<char>| #[trigger]
        sorting::reported(kept, name) <==> sorting::reported(items, name) by {
        assert(once.contains(name) <==> all.contains(name));
        if sorting::reported(kept, name) {
            let a = choose|a: int| 0 <= a < kept.len() && (#[trigger] kept[a])@ == name;
            assert(once[a] == name);
            let i = choose|i: int| 0 <= i < all.len() && all[i] == name;
            assert(items[i]@ == name);
        }
        if sorting::reported(items, name) {
            let i = choose|i: int| 0 <= i < items.len() && (#[trigger] items[i])@ == name;
            assert(all[i] == name);
            let a = choose|a: int| 0 <= a < once.len() && once[a] == name;
            assert(kept[a]@ == name);
        }
    }
    assert forall|a: int, b: int| 0 <= a < b < kept.len() implies (#[trigger] kept[a])@ != (
    #[trigger] kept[b])@ by {
        assert(once[a] != once[b]);
    }
    assert forall|a: int, b: int| 0 <= a < b < kept.len() implies occurs_first(
        items,
        (#[trigger] kept[a])@,
        (#[trigger] kept[b])@,
    ) by {
        util::law_dedup_keeps_order(all, a, b);
        let (i, j) = choose|i: int, j: int|
            0 <= i < j < all.len() && all[i] == once[a] && all[j] == once[b] && (forall|h: int|
                0 <= h < j ==> #[trigger] all[h] != all[j]);
        assert(items[i]@ == kept[a]@);
        assert forall|h: int| 0 <= h <= i implies (#[trigger] items[h])@ != kept[b]@ by {
            assert(all[h] != all[j]);
        }
    }
}

/// Deduplicating keeps the first of each name and leaves out the others.
pub proof fn law_repeats_are_left_out(items: &[ServiceName], kept: Vec<ServiceName>)
    requires
        call_ensures(dedup_preserve_order, (items,), kept),
    ensures
        without_repeats(items@, kept@),
{
    lemma_without_repeats(items@, kept@);
}

/// Both services have the same name, the same dependencies in the same order, and the same
/// adapter.
pub open spec fn same_service<A>(one: ServiceSpec<A>, other: ServiceSpec<A>) -> bool {
    &&& one.name@ == other.name@
    &&& one.adapter == other.adapter
    &&& one.deps@.len() == other.deps@.len()
    &&& forall|k: int|
        0 <= k < one.deps@.len() ==> (#[trigger] one.deps@[k])@ == other.deps@[k]@
}

proof fn lemma_same_service<A>(a: Seq<ServiceSpec<A>>, b: Seq<ServiceSpec<A>>, i: int)
    requires
        0 <= i < a.len(),
        i < b.len(),
        dag::nodes(a)[i] == dag::nodes(b)[i],
        a[i].adapter == b[i].adapter,
    ensures
        same_service(a[i], b[i]),
{
    assert(dag::nodes(a)[i] == a[i].node());
    assert(dag::nodes(b)[i] == b[i].node());
    assert(a[i].node().deps.len() == b[i].node().deps.len());
    assert forall|k: int| 0 <= k < a[i].deps@.len() implies (#[trigger] a[i].deps@[k])@
        == b[i].deps@[k]@ by {
        assert(a[i].node().deps[k] == a[i].deps@[k]@);
        assert(b[i].node().deps[k] == b[i].deps@[k]@);
    }
}

proof fn lemma_added<A>(
    builder: RuntimeBuilder<A>,
    name: Seq<char>,
    adapter: A,
    deps: Seq<Seq<char>>,
    outcome: Result<RuntimeBuilder<A>, ServiceStartError>,
    built: Runtime<A>,
    before: (RuntimeHandle, Vec<ServiceSpec<A>>),
    rebuilt: Runtime<A>,
    after: (RuntimeHandle, Vec<ServiceSpec<A>>),
)
    requires
        builder::added(builder, name, adapter, deps, outcome),
        call_ensures(RuntimeBuilder::<A>::build, (builder,), built),
        call_ensures(Runtime::<A>::into_parts, (built,), before),
        outcome matches Ok(grown) ==> {
            &&& call_ensures(RuntimeBuilder::<A>::build, (grown,), rebuilt)
            &&& call_ensures(Runtime::<A>::into_parts, (rebuilt,), after)
        },
    ensures
        outcome is Err <==> sorting::has_name(before.1@, name),
        outcome is Ok ==> {
            &&& after.1@.len() == before.1@.len() + 1
            &&& forall|i: int|
                0 <= i < before.1@.len() ==> same_service(#[trigger] after.1@[i], before.1@[i])
            &&& after.1@.last().name@ == name
            &&& after.1@.last().adapter == adapter
            &&& util::name_views(after.1@.last().deps@) == util::first_occurrences(deps)
        },
{
    let old_nodes = dag::nodes(before.1@);
    assert(sorting::has_name(before.1@, name) <==> builder::registered(old_nodes, name)) by {
        if sorting::has_name(before.1@, name) {
            let j = choose|j: int|
                0 <= j < before.1@.len() && (#[trigger] before.1@[j]).name@ == name;
            assert(old_nodes[j].name == name);
        }
        if builder::registered(old_nodes, name) {
            let j = choose|j: int| 0 <= j < old_nodes.len() && #[trigger] old_nodes[j].name == name;
            assert(before.1@[j].name@ == name);
        }
    }
    if let Ok(grown) = outcome {
        let nodes = dag::nodes(after.1@);
        assert(nodes.len() == old_nodes.len() + 1);
        assert forall|i: int| 0 <= i < before.1@.len() implies same_service(
            #[trigger] after.1@[i],
            before.1@[i],
        ) by {
            assert(nodes[i] == old_nodes[i]);
            assert(after.1@[i].adapter == grown.adapters()[i]);
            assert(before.1@[i].adapter == builder.adapters()[i]);
            lemma_same_service(after.1@, before.1@, i);
        }
        let last = after.1@.len() - 1;
        assert(nodes[last] == after.1@[last].node());
        assert(after.1@[last].adapter == grown.adapters()[last]);
    }
}

/// Registering a service is refused exactly where its name is taken, and otherwise adds it
/// to what the runtime is made of, after all others, with each of its dependencies once;
/// the others and the drain timeout stay as they were.
pub proof fn law_registration_adds_the_service<A>(
    builder: RuntimeBuilder<A>,
    name: ServiceName,
    adapter: A,
    deps: &[ServiceName],
    outcome: Result<RuntimeBuilder<A>, ServiceStartError>,
    built: Runtime<A>,
    before: (RuntimeHandle, Vec<ServiceSpec<A>>),
    rebuilt: Runtime<A>,
    after: (RuntimeHandle, Vec<ServiceSpec<A>>),
)
    requires
        call_ensures(
            RuntimeBuilder::<A>::service_with_deps,
            (builder, name, adapter, deps),
            outcome,
        ),
        call_ensures(RuntimeBuilder::<A>::build, (builder,), built),
        call_ensures(Runtime::<A>::into_parts, (built,), before),
        outcome matches Ok(grown) ==> {
            &&& call_ensures(RuntimeBuilder::<A>::build, (grown,), rebuilt)
            &&& call_ensures(Runtime::<A>::into_parts, (rebuilt,), after)
        },
    ensures
        outcome is Err <==> sorting::has_name(before.1@, name@),
        outcome matches Err(ServiceStartError::Duplicate(taken)) ==> taken@ == name@,
        outcome is Ok ==> {
            &&& after.1@.len() == before.1@.len() + 1
            &&& forall|i: int|
                0 <= i < before.1@.len() ==> same_service(#[trigger] after.1@[i], before.1@[i])
            &&& after.1@.last().name@ == name@
            &&& after.1@.last().adapter == adapter
            &&& without_repeats(deps@, after.1@.last().deps@)
            &&& util::duration_nanos(after.0@.shutdown_timeout) == util::duration_nanos(
                before.0@.shutdown_timeout,
            )
        },
{
    lemma_added(
        builder,
        name@,
        adapter,
        util::name_views(deps@),
        outcome,
        built,
        before,
        rebuilt,
        after,
    );
    if outcome is Ok {
        lemma_without_repeats(deps@, after.1@.last().deps@);
    }
}

/// Registering a service without dependencies is registering it with an empty list of
/// them.
pub proof fn law_plain_registration_adds_no_dependencies<A>(
    builder: RuntimeBuilder<A>,
    name: ServiceName,
    adapter: A,
    outcome: Result<RuntimeBuilder<A>, ServiceStartError>,
    built: Runtime<A>,
    before: (RuntimeHandle, Vec<ServiceSpec<A>>),
    rebuilt: Runtime<A>,
    after: (RuntimeHandle, Vec<ServiceSpec<A>>),
)
    requires
        call_ensures(RuntimeBuilder::<A>::service, (builder, name, adapter), outcome),
        call_ensures(RuntimeBuilder::<A>::build, (builder,), built),
        call_ensures(Runtime::<A>::into_parts, (built,), before),
        outcome matches Ok(grown) ==> {
            &&& call_ensures(RuntimeBuilder::<A>::build, (grown,), rebuilt)
            &&& call_ensures(Runtime::<A>::into_parts, (rebuilt,), after)
        },
    ensures
        outcome is Err <==> sorting::has_name(before.1@, name@),
        outcome matches Err(ServiceStartError::Duplicate(taken)) ==> taken@ == name@,
        outcome is Ok ==> {
            &&& after.1@.len() == before.1@.len() + 1
            &&& forall|i: int|
                0 <= i < before.1@.len() ==> same_service(#[trigger] after.1@[i], before.1@[i])
            &&& after.1@.last().name@ == name@
            &&& after.1@.last().adapter == adapter
            &&& after.1@.last().deps@.len() == 0
            &&& util::duration_nanos(after.0@.shutdown_timeout) == util::duration_nanos(
                before.0@.shutdown_timeout,
            )
        },
{
    lemma_added(
        builder,
        name@,
        adapter,
        Seq::empty(),
        outcome,
        built,
        before,
        rebuilt,
        after,
    );
    if outcome is Ok {
        util::lemma_first_occurrences_members(Seq::<Seq<char>>::empty());
        assert(util::name_views(after.1@.last().deps@).len() == 0);
    }
}

/// A new builder makes a runtime of no services that drains for ten seconds at most, and a
/// drain timeout that is set is the runtime's and changes nothing else.
pub proof fn law_drain_timeout_is_as_set<A>(
    fresh: RuntimeBuilder<A>,
    empty: Runtime<A>,
    nothing: (RuntimeHandle, Vec<ServiceSpec<A>>),
    builder: RuntimeBuilder<A>,
    timeout: Duration,
    timed: RuntimeBuilder<A>,
    built: Runtime<A>,
    before: (RuntimeHandle, Vec<ServiceSpec<A>>),
    rebuilt: Runtime<A>,
    after: (RuntimeHandle, Vec<ServiceSpec<A>>),
)
    requires
        call_ensures(RuntimeBuilder::<A>::new, (), fresh),
        call_ensures(RuntimeBuilder::<A>::build, (fresh,), empty),
        call_ensures(Runtime::<A>::into_parts, (empty,), nothing),
        call_ensures(RuntimeBuilder::<A>::shutdown_timeout, (builder, timeout), timed),
        call_ensures(RuntimeBuilder::<A>::build, (builder,), built),
        call_ensures(Runtime::<A>::into_parts, (built,), before),
        call_ensures(RuntimeBuilder::<A>::build, (timed,), rebuilt),
        call_ensures(Runtime::<A>::into_parts, (rebuilt,), after),
    ensures
        nothing.1@.len() == 0,
        util::duration_nanos(nothing.0@.shutdown_timeout) == 10_000_000_000,
        after.0@.shutdown_timeout == timeout,
        after.1@.len() == before.1@.len(),
        forall|i: int|
            0 <= i < before.1@.len() ==> same_service(#[trigger] after.1@[i], before.1@[i]),
{
    let nodes = dag::nodes(after.1@);
    assert(nodes == dag::nodes(before.1@));
    assert(nodes.len() == dag::nodes(before.1@).len());
    assert forall|i: int| 0 <= i < before.1@.len() implies same_service(
        #[trigger] after.1@[i],
        before.1@[i],
    ) by {
        assert(after.1@[i].adapter == timed.adapters()[i]);
        assert(before.1@[i].adapter == builder.adapters()[i]);
        lemma_same_service(after.1@, before.1@, i);
    }
    assert(dag::nodes(nothing.1@).len() == 0);
}

/// A runtime begins with nothing ready and no shutdown requested, and knows the readiness
/// of the services that it is made of and of no others.
pub proof fn law_runtime_begins_with_nothing_ready<A>(
    builder: RuntimeBuilder<A>,
    built: Runtime<A>,
    parts: (RuntimeHandle, Vec<ServiceSpec<A>>),
    name: ServiceName,
    ready: bool,
    shutting_down: bool,
)
    requires
        call_ensures(RuntimeBuilder::<A>::build, (builder,), built),
        call_ensures(Runtime::<A>::into_parts, (built,), parts),
        call_ensures(RuntimeHandle::is_ready, (&parts.0, name), ready),
        call_ensures(RuntimeHandle::is_shutting_down, (&parts.0,), shutting_down),
    ensures
        parts.0.wf(),
        !ready,
        !shutting_down,
        parts.0@.readiness.dom().contains(name@) <==> sorting::has_name(parts.1@, name@),
{
    let nodes = dag::nodes(parts.1@);
    assert(!parts.0@.ready(name@));
    if sorting::has_name(parts.1@, name@) {
        let j = choose|j: int| 0 <= j < parts.1@.len() && (#[trigger] parts.1@[j]).name@ == name@;
        assert(nodes[j].name == name@);
    }
    if builder::registered(nodes, name@) {
        let j = choose|j: int| 0 <= j < nodes.len() && #[trigger] nodes[j].name == name@;
        assert(parts.1@[j].name@ == name@);
    }
}

/// A default builder is a new one.
pub proof fn law_default_builder_is_new<A>(
    fresh: RuntimeBuilder<A>,
    built: Runtime<A>,
    parts: (RuntimeHandle, Vec<ServiceSpec<A>>),
)
    requires
        call_ensures(<RuntimeBuilder<A> as Default>::default, (), fresh),
        call_ensures(RuntimeBuilder::<A>::build, (fresh,), built),
        call_ensures(Runtime::<A>::into_parts, (built,), parts),
    ensures
        parts.1@.len() == 0,
        util::duration_nanos(parts.0@.shutdown_timeout) == 10_000_000_000,
{
    assert(dag::nodes(parts.1@).len() == 0);
}

} // verus!
