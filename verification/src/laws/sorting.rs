//! Which services can be put in an order, which order that is, and what is reported of
//! those that cannot.
use vstd::prelude::*;

use crate::runtime::dag;
use crate::runtime::dag::{topo_sort, DagError};
use crate::runtime::schedule;
use crate::service::{ServiceName, ServiceSpec};
use crate::util;

verus! {

/// Service `i` declares a dependency called `name`.
pub open spec fn declares<A>(specs: Seq<ServiceSpec<A>>, i: int, name: Seq<char>) -> bool {
    exists|k: int| 0 <= k < specs[i].deps@.len() && (#[trigger] specs[i].deps@[k])@ == name
}

/// Some service is called `name`.
pub open spec fn has_name<A>(specs: Seq<ServiceSpec<A>>, name: Seq<char>) -> bool {
    exists|j: int| 0 <= j < specs.len() && (#[trigger] specs[j]).name@ == name
}

/// Dependency `k` of service `i` is the name of some other service.
pub open spec fn names_another<A>(specs: Seq<ServiceSpec<A>>, i: int, k: int) -> bool {
    specs[i].deps@[k]@ != specs[i].name@ && has_name(specs, specs[i].deps@[k]@)
}

/// No two services have the same name.
pub open spec fn names_differ<A>(specs: Seq<ServiceSpec<A>>) -> bool {
    forall|i: int, j: int|
        0 <= i < j < specs.len() ==> (#[trigger] specs[i]).name@ != (#[trigger] specs[j]).name@
}

/// Each service along `walk` declares the next one as a dependency, and the last one
/// declares the first.
pub open spec fn comes_back<A>(specs: Seq<ServiceSpec<A>>, walk: Seq<int>) -> bool {
    &&& walk.len() > 0
    &&& forall|p: int| 0 <= p < walk.len() ==> 0 <= #[trigger] walk[p] < specs.len()
    &&& forall|p: int|
        0 < p < walk.len() ==> declares(specs, walk[p - 1], specs[#[trigger] walk[p]].name@)
    &&& declares(specs, walk.last(), specs[walk[0]].name@)
}

/// Dependency `k` of service `v` is service `j`: the last one that was registered under
/// that name.
pub open spec fn refers_to<A>(specs: Seq<ServiceSpec<A>>, v: int, k: int, j: int) -> bool {
    &&& 0 <= k < specs[v].deps@.len()
    &&& 0 <= j < specs.len()
    &&& specs[j].name@ == specs[v].deps@[k]@
    &&& forall|l: int| j < l < specs.len() ==> (#[trigger] specs[l]).name@ != specs[v].deps@[k]@
}

proof fn lemma_names_another<A>(specs: Seq<ServiceSpec<A>>, i: int, k: int)
    requires
        0 <= i < specs.len(),
        0 <= k < specs[i].deps@.len(),
    ensures
        dag::good_dependency(dag::nodes(specs), i, k) <==> names_another(specs, i, k),
        dag::depends_on_itself(dag::nodes(specs), i, k) <==> specs[i].deps@[k]@ == specs[i].name@,
{
    let graph = dag::nodes(specs);
    let dep = specs[i].deps@[k]@;
    assert(graph[i].deps[k] == dep);
    dag::lemma_index_of(graph, dep);
    let found = dag::index_of(graph, dep);
    if found >= 0 {
        assert(graph[found].name == specs[found].name@);
    }
    if has_name(specs, dep) {
        let j = choose|j: int| 0 <= j < specs.len() && (#[trigger] specs[j]).name@ == dep;
        assert(graph[j].name == dep);
    }
}

proof fn lemma_well_connected<A>(specs: Seq<ServiceSpec<A>>)
    ensures
        dag::well_connected(dag::nodes(specs)) <==> (forall|i: int, k: int|
            0 <= i < specs.len() && 0 <= k < specs[i].deps@.len() ==> #[trigger] names_another(
                specs,
                i,
                k,
            )),
{
    let graph = dag::nodes(specs);
    assert forall|i: int, k: int|
        0 <= i < specs.len() && 0 <= k < specs[i].deps@.len() implies #[trigger] names_another(
        specs,
        i,
        k,
    ) == dag::good_dependency(graph, i, k) by {
        lemma_names_another(specs, i, k);
    }
    if dag::well_connected(graph) {
        assert forall|i: int, k: int|
            0 <= i < specs.len() && 0 <= k < specs[i].deps@.len() implies #[trigger] names_another(
            specs,
            i,
            k,
        ) by {
            assert(dag::good_dependency(graph, i, k));
        }
    }
    if forall|i: int, k: int|
        0 <= i < specs.len() && 0 <= k < specs[i].deps@.len() ==> #[trigger] names_another(
            specs,
            i,
            k,
        ) {
        assert forall|i: int, k: int|
            0 <= i < graph.len() && 0 <= k < graph[i].deps.len() implies #[trigger] dag::good_dependency(
            graph,
            i,
            k,
        ) by {
            assert(names_another(specs, i, k));
        }
    }
}

/// Where the index of a dependency is taken from.
proof fn lemma_target<A>(specs: Seq<ServiceSpec<A>>, i: int, k: int, j: int)
    requires
        specs.len() <= usize::MAX,
        0 <= i < specs.len(),
        0 <= k < specs[i].deps@.len(),
        names_another(specs, i, k),
        0 <= j < specs.len(),
    ensures
        dag::targets(dag::nodes(specs))[i][k] == j <==> refers_to(specs, i, k, j),
{
    let graph = dag::nodes(specs);
    let dep = specs[i].deps@[k]@;
    lemma_names_another(specs, i, k);
    dag::lemma_index_of(graph, dep);
    let found = dag::index_of(graph, dep);
    assert(graph[i].deps[k] == dep);
    assert(graph[found].name == specs[found].name@);
    assert forall|l: int| found < l < specs.len() implies (#[trigger] specs[l]).name@ != dep by {
        assert(graph[l].name != dep);
    }
    if refers_to(specs, i, k, j) && j != found {
        if j < found {
            assert(specs[found].name@ != dep);
        } else {
            assert(specs[j].name@ != dep);
        }
    }
}

proof fn lemma_cycle_by_index<A>(specs: Seq<ServiceSpec<A>>, walk: Seq<usize>)
    requires
        specs.len() <= usize::MAX,
        forall|i: int, k: int|
            0 <= i < specs.len() && 0 <= k < specs[i].deps@.len() ==> #[trigger] names_another(
                specs,
                i,
                k,
            ),
        schedule::is_cycle(dag::targets(dag::nodes(specs)), walk),
    ensures
        comes_back(specs, walk.map_values(|v: usize| v as int)),
{
    let lists = dag::targets(dag::nodes(specs));
    let named = walk.map_values(|v: usize| v as int);
    assert forall|u: usize, v: usize|
        u < specs.len() && v < specs.len() && #[trigger] schedule::depends_on(
            lists,
            u,
            v,
        ) implies declares(specs, u as int, specs[v as int].name@) by {
        let k = choose|k: int| 0 <= k < lists[u as int].len() && lists[u as int][k] == v;
        assert(names_another(specs, u as int, k));
        lemma_target(specs, u as int, k, v as int);
        assert(specs[u as int].deps@[k]@ == specs[v as int].name@);
    }
    assert forall|p: int| 0 < p < named.len() implies declares(
        specs,
        named[p - 1],
        specs[#[trigger] named[p]].name@,
    ) by {
        assert(schedule::depends_on(lists, walk[p - 1], walk[p]));
    }
    assert(schedule::depends_on(lists, walk.last(), walk[0]));
}

proof fn lemma_cycle_by_name<A>(specs: Seq<ServiceSpec<A>>, walk: Seq<int>)
    requires
        specs.len() <= usize::MAX,
        names_differ(specs),
        forall|i: int, k: int|
            0 <= i < specs.len() && 0 <= k < specs[i].deps@.len() ==> #[trigger] names_another(
                specs,
                i,
                k,
            ),
        comes_back(specs, walk),
    ensures
        schedule::is_cycle(
            dag::targets(dag::nodes(specs)),
            walk.map_values(|v: int| v as usize),
        ),
{
    let lists = dag::targets(dag::nodes(specs));
    let by_index = walk.map_values(|v: int| v as usize);
    assert forall|p: int| 0 < p < by_index.len() implies schedule::depends_on(
        lists,
        by_index[p - 1],
        #[trigger] by_index[p],
    ) by {
        assert(declares(specs, walk[p - 1], specs[walk[p]].name@));
        lemma_declares(specs, walk[p - 1], walk[p]);
    }
    lemma_declares(specs, walk.last(), walk[0]);
    assert forall|p: int| 0 <= p < by_index.len() implies (#[trigger] by_index[p]) < lists.len() by {
        assert(0 <= walk[p] < specs.len());
    }
}

proof fn lemma_declares<A>(specs: Seq<ServiceSpec<A>>, u: int, v: int)
    requires
        specs.len() <= usize::MAX,
        names_differ(specs),
        forall|i: int, k: int|
            0 <= i < specs.len() && 0 <= k < specs[i].deps@.len() ==> #[trigger] names_another(
                specs,
                i,
                k,
            ),
        0 <= u < specs.len(),
        0 <= v < specs.len(),
    ensures
        declares(specs, u, specs[v].name@) <==> schedule::depends_on(
            dag::targets(dag::nodes(specs)),
            u as usize,
            v as usize,
        ),
{
    let lists = dag::targets(dag::nodes(specs));
    if declares(specs, u, specs[v].name@) {
        let k = choose|k: int|
            0 <= k < specs[u].deps@.len() && (#[trigger] specs[u].deps@[k])@ == specs[v].name@;
        assert(names_another(specs, u, k));
        assert forall|l: int| v < l < specs.len() implies (#[trigger] specs[l]).name@
            != specs[u].deps@[k]@ by {
            assert(specs[v].name@ != specs[l].name@);
        }
        lemma_target(specs, u, k, v);
        assert(lists[u][k] == v);
    }
    if schedule::depends_on(lists, u as usize, v as usize) {
        let k = choose|k: int| 0 <= k < lists[u].len() && lists[u][k] == v;
        assert(names_another(specs, u, k));
        lemma_target(specs, u, k, v);
        assert(specs[u].deps@[k]@ == specs[v].name@);
    }
}

/// Whatever sorting gives for sound services is an order.
pub(crate) proof fn lemma_sound_services<A>(
    specs: Seq<ServiceSpec<A>>,
    outcome: Result<Vec<usize>, DagError>,
)
    requires
        specs.len() <= usize::MAX,
        dag::sorted(dag::nodes(specs), outcome),
        forall|i: int, k: int|
            #![trigger specs[i].deps@[k]]
            0 <= i < specs.len() && 0 <= k < specs[i].deps@.len() ==> {
                &&& specs[i].deps@[k]@ != specs[i].name@
                &&& exists|j: int|
                    0 <= j < specs.len() && (#[trigger] specs[j]).name@ == specs[i].deps@[k]@
            },
        !exists|walk: Seq<int>| #[trigger] comes_back(specs, walk),
    ensures
        outcome is Ok,
{
    let graph = dag::nodes(specs);
    assert forall|i: int, k: int|
        0 <= i < specs.len() && 0 <= k < specs[i].deps@.len() implies #[trigger] names_another(
        specs,
        i,
        k,
    ) by {
        assert(specs[i].deps@[k]@ != specs[i].name@);
    }
    lemma_well_connected(specs);
    dag::law_sort_succeeds_without_cycles(graph, outcome);
    if exists|walk: Seq<usize>| #[trigger] schedule::is_cycle(dag::targets(graph), walk) {
        let walk = choose|walk: Seq<usize>| #[trigger]
            schedule::is_cycle(dag::targets(graph), walk);
        lemma_cycle_by_index(specs, walk);
    }
}

/// Services can be sorted where every declared dependency is the name of some other
/// service and no chain of dependencies comes back to where it began, however many
/// services and dependencies there are.
pub proof fn law_sound_services_are_sorted<A>(
    specs: &[ServiceSpec<A>],
    outcome: Result<Vec<usize>, DagError>,
)
    requires
        specs@.len() <= usize::MAX,
        call_ensures(topo_sort::<A>, (specs,), outcome),
        forall|i: int, k: int|
            #![trigger specs@[i].deps@[k]]
            0 <= i < specs@.len() && 0 <= k < specs@[i].deps@.len() ==> {
                &&& specs@[i].deps@[k]@ != specs@[i].name@
                &&& exists|j: int|
                    0 <= j < specs@.len() && (#[trigger] specs@[j]).name@ == specs@[i].deps@[k]@
            },
        !exists|walk: Seq<int>| #[trigger] comes_back(specs@, walk),
    ensures
        outcome is Ok,
{
    lemma_sound_services(specs@, outcome);
}

/// Sorted services declare no dependency but the names of other services, and where no
/// two have the same name, no chain of dependencies comes back to where it began.
pub proof fn law_sorted_services_are_sound<A>(
    specs: &[ServiceSpec<A>],
    order: Vec<usize>,
    i: int,
    k: int,
    walk: Seq<int>,
)
    requires
        specs@.len() <= usize::MAX,
        call_ensures(topo_sort::<A>, (specs,), Ok(order)),
    ensures
        0 <= i < specs@.len() && 0 <= k < specs@[i].deps@.len() ==> {
            &&& specs@[i].deps@[k]@ != specs@[i].name@
            &&& exists|j: int|
                0 <= j < specs@.len() && (#[trigger] specs@[j]).name@ == specs@[i].deps@[k]@
        },
        names_differ(specs@) ==> !comes_back(specs@, walk),
{
    let graph = dag::nodes(specs@);
    lemma_well_connected(specs@);
    assert(dag::well_connected(graph));
    if 0 <= i < specs@.len() && 0 <= k < specs@[i].deps@.len() {
        assert(names_another(specs@, i, k));
    }
    dag::law_sort_succeeds_without_cycles(graph, Ok(order));
    if names_differ(specs@) && comes_back(specs@, walk) {
        lemma_cycle_by_name(specs@, walk);
    }
}

/// A dependency is reported unknown only where no service has that name, and a service to
/// depend on itself only where it does; it is the first in the order of registration and
/// declaration that is not the name of another service.
pub proof fn law_refused_dependency_is_the_first_bad_one<A>(
    specs: &[ServiceSpec<A>],
    e: DagError,
)
    requires
        call_ensures(topo_sort::<A>, (specs,), Err(e)),
    ensures
        e matches DagError::UnknownDependency { service, dep } ==> {
            &&& forall|j: int| 0 <= j < specs@.len() ==> (#[trigger] specs@[j]).name@ != dep@
            &&& exists|i: int, k: int| #[trigger]
                comes_first(specs@, i, k) && specs@[i].name@ == service@ && specs@[i].deps@[k]@
                    == dep@
        },
        e matches DagError::SelfDependency(name) ==> exists|i: int, k: int| #[trigger]
            comes_first(specs@, i, k) && specs@[i].name@ == name@ && specs@[i].deps@[k]@ == name@,
        e is Cycle ==> forall|i: int, k: int|
            0 <= i < specs@.len() && 0 <= k < specs@[i].deps@.len() ==> #[trigger] names_another(
                specs@,
                i,
                k,
            ),
{
    let graph = dag::nodes(specs@);
    lemma_well_connected(specs@);
    if !(e is Cycle) {
        let (i, k) = match e {
            DagError::SelfDependency(name) => choose|i: int, k: int| #[trigger]
                dag::first_bad_dependency(graph, i, k) && dag::depends_on_itself(graph, i, k)
                    && name@ == graph[i].name,
            DagError::UnknownDependency { service, dep } => choose|i: int, k: int| #[trigger]
                dag::first_bad_dependency(graph, i, k) && !dag::depends_on_itself(graph, i, k)
                    && service@ == graph[i].name && dep@ == graph[i].deps[k],
            DagError::Cycle(_) => (0, 0),
        };
        lemma_names_another(specs@, i, k);
        assert(graph[i].deps[k] == specs@[i].deps@[k]@);
        assert forall|a: int, b: int|
            0 <= a < specs@.len() && 0 <= b < specs@[a].deps@.len() && (a < i || (a == i && b < k))
            implies #[trigger] names_another(specs@, a, b) by {
            assert(dag::good_dependency(graph, a, b));
            lemma_names_another(specs@, a, b);
        }
        assert(comes_first(specs@, i, k));
    }
}

/// Dependency `k` of service `i` is not the name of another service, and every one
/// before it is.
pub open spec fn comes_first<A>(specs: Seq<ServiceSpec<A>>, i: int, k: int) -> bool {
    &&& 0 <= i < specs.len()
    &&& 0 <= k < specs[i].deps@.len()
    &&& !names_another(specs, i, k)
    &&& forall|a: int, b: int|
        0 <= a < specs.len() && 0 <= b < specs[a].deps@.len() && (a < i || (a == i && b < k))
            ==> #[trigger] names_another(specs, a, b)
}

pub(crate) proof fn lemma_order_respects_dependencies<A>(
    specs: Seq<ServiceSpec<A>>,
    order: Vec<usize>,
    p: int,
    k: int,
)
    requires
        specs.len() <= usize::MAX,
        dag::sorted(dag::nodes(specs), Ok(order)),
    ensures
        order@.len() == specs.len(),
        order@.no_duplicates(),
        forall|q: int| 0 <= q < order@.len() ==> (#[trigger] order@[q]) < specs.len(),
        forall|i: int| 0 <= i < specs.len() ==> order@.contains(#[trigger] (i as usize)),
        0 <= p < order@.len() && 0 <= k < specs[order@[p] as int].deps@.len() ==> exists|q: int|
            0 <= q < p && #[trigger] refers_to(specs, order@[p] as int, k, order@[q] as int),
{
    let graph = dag::nodes(specs);
    let lists = dag::targets(graph);
    dag::lemma_full_order_starts_all(graph, order@);
    assert forall|i: int| 0 <= i < specs.len() implies order@.contains(#[trigger] (i as usize)) by {
        assert(dag::can_start(graph, i));
        schedule::lemma_start_order_complete(lists, order@, i as usize);
    }
    if 0 <= p < order@.len() && 0 <= k < specs[order@[p] as int].deps@.len() {
        let v = order@[p];
        lemma_well_connected(specs);
        assert(names_another(specs, v as int, k));
        assert(schedule::released(lists, order@.take(p), v));
        assert(order@.take(p).contains(lists[v as int][k]));
        let q = choose|q: int|
            0 <= q < order@.take(p).len() && order@.take(p)[q] == lists[v as int][k];
        lemma_target(specs, v as int, k, order@[q] as int);
        assert(refers_to(specs, v as int, k, order@[q] as int));
    }
}

/// Sorting gives every service once, and after each service that it depends on.
pub proof fn law_order_respects_dependencies<A>(
    specs: &[ServiceSpec<A>],
    order: Vec<usize>,
    p: int,
    k: int,
)
    requires
        specs@.len() <= usize::MAX,
        call_ensures(topo_sort::<A>, (specs,), Ok(order)),
    ensures
        order@.len() == specs@.len(),
        order@.no_duplicates(),
        forall|q: int| 0 <= q < order@.len() ==> (#[trigger] order@[q]) < specs@.len(),
        forall|i: int| 0 <= i < specs@.len() ==> order@.contains(#[trigger] (i as usize)),
        0 <= p < order@.len() && 0 <= k < specs@[order@[p] as int].deps@.len() ==> exists|q: int|
            0 <= q < p && #[trigger] refers_to(specs@, order@[p] as int, k, order@[q] as int),
{
    lemma_order_respects_dependencies(specs@, order, p, k);
}

/// The order is that of a queue: a service comes up once the last of its dependencies has,
/// earlier ones first, and those that come up together in the order of registration.
///
/// So of two services in the order, whatever the first one waits for is followed, or met,
/// by something that the second one waits for; and where the first was registered later,
/// the second waits for something that comes after everything the first waits for.
pub proof fn law_order_is_that_of_a_queue<A>(
    specs: &[ServiceSpec<A>],
    order: Vec<usize>,
    p: int,
    q: int,
)
    requires
        specs@.len() <= usize::MAX,
        call_ensures(topo_sort::<A>, (specs,), Ok(order)),
        0 <= p < q < order@.len(),
    ensures
        forall|k: int, t: int|
            0 <= t < order@.len() && #[trigger] refers_to(
                specs@,
                order@[p] as int,
                k,
                order@[t] as int,
            ) ==> exists|l: int, s: int|
                t <= s < order@.len() && #[trigger] refers_to(
                    specs@,
                    order@[q] as int,
                    l,
                    order@[s] as int,
                ),
        order@[p] > order@[q] ==> exists|l: int, s: int|
            {
                &&& 0 <= s < order@.len()
                &&& #[trigger] refers_to(specs@, order@[q] as int, l, order@[s] as int)
                &&& forall|k: int, t: int|
                    0 <= t < order@.len() && #[trigger] refers_to(
                        specs@,
                        order@[p] as int,
                        k,
                        order@[t] as int,
                    ) ==> t < s
            },
        specs@[order@[p] as int].deps@.len() == 0 && specs@[order@[q] as int].deps@.len() == 0
            ==> order@[p] < order@[q],
        specs@[order@[q] as int].deps@.len() == 0 ==> specs@[order@[p] as int].deps@.len() == 0,
{
    let graph = dag::nodes(specs@);
    let lists = dag::targets(graph);
    let u = order@[p];
    let v = order@[q];
    lemma_well_connected(specs@);
    assert(schedule::goes_before(lists, order@, u, v));
    if exists|t: int|
        0 <= t <= order@.len() && schedule::released(lists, order@.take(t), u)
            && !#[trigger] schedule::released(lists, order@.take(t), v) {
        let at = choose|t: int|
            0 <= t <= order@.len() && schedule::released(lists, order@.take(t), u)
                && !#[trigger] schedule::released(lists, order@.take(t), v);
        let (l, s) = lemma_missing_position(specs, order, q, at);
        assert forall|k: int, t: int|
            0 <= t < order@.len() && #[trigger] refers_to(
                specs@,
                u as int,
                k,
                order@[t] as int,
            ) implies t < at by {
            assert(names_another(specs@, u as int, k));
            lemma_target(specs@, u as int, k, order@[t] as int);
            assert(order@.take(at).contains(lists[u as int][k]));
            let x = choose|x: int|
                0 <= x < order@.take(at).len() && order@.take(at)[x] == lists[u as int][k];
            assert(order@[x] == order@[t]);
        }
    } else {
        assert forall|k: int, t: int|
            0 <= t < order@.len() && #[trigger] refers_to(
                specs@,
                u as int,
                k,
                order@[t] as int,
            ) implies exists|l: int, s: int|
            t <= s < order@.len() && #[trigger] refers_to(
                specs@,
                v as int,
                l,
                order@[s] as int,
            ) by {
            assert(names_another(specs@, u as int, k));
            lemma_target(specs@, u as int, k, order@[t] as int);
            assert(!order@.take(t).contains(lists[u as int][k])) by {
                if order@.take(t).contains(lists[u as int][k]) {
                    let x = choose|x: int|
                        0 <= x < order@.take(t).len() && order@.take(t)[x] == lists[u as int][k];
                    assert(order@[x] == order@[t]);
                }
            }
            assert(!schedule::released(lists, order@.take(t), u));
            assert(!schedule::released(lists, order@.take(t), v));
            let (l, s) = lemma_missing_position(specs, order, q, t);
        }
    }
    if specs@[v as int].deps@.len() == 0 && specs@[u as int].deps@.len() > 0 {
        law_order_respects_dependencies(specs, order, p, 0);
        let t = choose|t: int|
            0 <= t < p && #[trigger] refers_to(specs@, u as int, 0, order@[t] as int);
        assert(refers_to(specs@, u as int, 0, order@[t] as int));
    }
    if u == v {
        assert(order@[p] == order@[q]);
    }
}

proof fn lemma_missing_position<A>(
    specs: &[ServiceSpec<A>],
    order: Vec<usize>,
    q: int,
    at: int,
) -> (found: (int, int))
    requires
        specs@.len() <= usize::MAX,
        call_ensures(topo_sort::<A>, (specs,), Ok(order)),
        0 <= q < order@.len(),
        0 <= at <= order@.len(),
        !schedule::released(dag::targets(dag::nodes(specs@)), order@.take(at), order@[q]),
    ensures
        at <= found.1 < order@.len(),
        refers_to(specs@, order@[q] as int, found.0, order@[found.1] as int),
{
    let lists = dag::targets(dag::nodes(specs@));
    let v = order@[q];
    let l = choose|l: int|
        0 <= l < lists[v as int].len() && !order@.take(at).contains(#[trigger] lists[v as int][l]);
    law_order_respects_dependencies(specs, order, q, l);
    let s = choose|s: int|
        0 <= s < q && #[trigger] refers_to(specs@, v as int, l, order@[s] as int);
    lemma_well_connected(specs@);
    assert(names_another(specs@, v as int, l));
    lemma_target(specs@, v as int, l, order@[s] as int);
    if s < at {
        assert(order@.take(at)[s] == lists[v as int][l]);
    }
    (l, s)
}

/// The indices of those of the first `upto` services that cannot be started.
proof fn lemma_stuck_indices(graph: Seq<dag::ServiceNode>, upto: int) -> (stuck: Seq<int>)
    requires
        0 <= upto <= graph.len(),
    ensures
        stuck.len() == dag::stuck_names(graph, upto).len(),
        forall|a: int|
            0 <= a < stuck.len() ==> 0 <= #[trigger] stuck[a] < upto && !dag::can_start(
                graph,
                stuck[a],
            ) && dag::stuck_names(graph, upto)[a] == graph[stuck[a]].name,
        forall|a: int, b: int| 0 <= a < b < stuck.len() ==> stuck[a] < stuck[b],
        forall|i: int|
            0 <= i < upto && !#[trigger] dag::can_start(graph, i) ==> stuck.contains(i),
    decreases upto,
{
    if upto == 0 {
        Seq::empty()
    } else {
        let before = lemma_stuck_indices(graph, upto - 1);
        if dag::can_start(graph, upto - 1) {
            before
        } else {
            let stuck = before.push(upto - 1);
            assert forall|i: int|
                0 <= i < upto && !#[trigger] dag::can_start(graph, i) implies stuck.contains(i) by {
                if i < upto - 1 {
                    let a = choose|a: int| 0 <= a < before.len() && before[a] == i;
                    assert(stuck[a] == i);
                } else {
                    assert(stuck[before.len() as int] == i);
                }
            }
            stuck
        }
    }
}

/// A cycle is reported with the services that are on one or depend on one that is, in
/// the order of registration, each of them once: a service on a cycle is reported, one
/// that depends on a reported one is, and each reported one depends on a reported one.
pub proof fn law_cycle_report_names_all_who_wait<A>(
    specs: &[ServiceSpec<A>],
    names: Vec<ServiceName>,
    walk: Seq<int>,
    i: int,
    j: int,
)
    requires
        specs@.len() <= usize::MAX,
        names_differ(specs@),
        call_ensures(topo_sort::<A>, (specs,), Err(DagError::Cycle(names))),
        0 <= i < specs@.len(),
        0 <= j < specs@.len(),
    ensures
        names@.len() > 0,
        forall|a: int| 0 <= a < names@.len() ==> has_name(specs@, (#[trigger] names@[a])@),
        comes_back(specs@, walk) && walk.contains(i) ==> reported(names@, specs@[i].name@),
        declares(specs@, i, specs@[j].name@) && reported(names@, specs@[j].name@) ==> reported(
            names@,
            specs@[i].name@,
        ),
        reported(names@, specs@[i].name@) ==> exists|l: int|
            0 <= l < specs@.len() && declares(specs@, i, (#[trigger] specs@[l]).name@) && reported(
                names@,
                specs@[l].name@,
            ),
        forall|a: int, b: int|
            0 <= a < names@.len() && 0 <= b < names@.len() && (#[trigger] names@[a])@
                == specs@[i].name@ && (#[trigger] names@[b])@ == specs@[j].name@ ==> (a < b <==> i
                < j),
{
    let graph = dag::nodes(specs@);
    let lists = dag::targets(graph);
    let n = specs@.len() as int;
    lemma_well_connected(specs@);
    dag::lemma_targets_in_range(graph);
    let stuck = lemma_stuck_indices(graph, n);
    let listed = dag::stuck_names(graph, n);
    assert forall|x: int| 0 <= x < n implies (#[trigger] graph[x]).name == specs@[x].name@ by {}
    assert(listed.no_duplicates()) by {
        assert forall|a: int, b: int|
            0 <= a < listed.len() && 0 <= b < listed.len() && a != b implies listed[a]
            != listed[b] by {
            assert(graph[stuck[a]].name == specs@[stuck[a]].name@);
            assert(graph[stuck[b]].name == specs@[stuck[b]].name@);
            if a < b {
                assert(specs@[stuck[a]].name@ != specs@[stuck[b]].name@);
            } else {
                assert(specs@[stuck[b]].name@ != specs@[stuck[a]].name@);
            }
        }
    }
    util::lemma_first_occurrences_distinct(listed);
    assert(util::name_views(names@) == listed);
    assert forall|a: int| 0 <= a < names@.len() implies (#[trigger] names@[a])@
        == specs@[stuck[a]].name@ by {
        assert(util::name_views(names@)[a] == listed[a]);
        assert(graph[stuck[a]].name == specs@[stuck[a]].name@);
    }
    assert forall|x: int| 0 <= x < n implies (reported(names@, (#[trigger] specs@[x]).name@)
        <==> !dag::can_start(graph, x)) by {
        if !dag::can_start(graph, x) {
            let a = choose|a: int| 0 <= a < stuck.len() && stuck[a] == x;
            assert(names@[a]@ == specs@[x].name@);
        }
        if reported(names@, specs@[x].name@) {
            let a = choose|a: int|
                0 <= a < names@.len() && (#[trigger] names@[a])@ == specs@[x].name@;
            if stuck[a] < x {
                assert(specs@[stuck[a]].name@ != specs@[x].name@);
            } else if x < stuck[a] {
                assert(specs@[x].name@ != specs@[stuck[a]].name@);
            }
        }
    }
    let some = choose|x: int| 0 <= x < graph.len() && !#[trigger] dag::can_start(graph, x);
    assert(reported(names@, specs@[some].name@));
    if comes_back(specs@, walk) && walk.contains(i) {
        lemma_cycle_by_name(specs@, walk);
        let by_index = walk.map_values(|v: int| v as usize);
        let w = choose|w: int| 0 <= w < walk.len() && walk[w] == i;
        assert(by_index[w] == i);
        if dag::can_start(graph, i) {
            let order = choose|order: Seq<usize>|
                schedule::is_schedule(lists, order) && order.contains(i as usize);
            let p = choose|p: int| 0 <= p < order.len() && order[p] == i;
            schedule::lemma_schedule_avoids_cycle(lists, order, by_index, p);
        }
    }
    if declares(specs@, i, specs@[j].name@) && reported(names@, specs@[j].name@) {
        lemma_declares(specs@, i, j);
        if dag::can_start(graph, i) {
            let order = choose|order: Seq<usize>|
                schedule::is_schedule(lists, order) && order.contains(i as usize);
            let p = choose|p: int| 0 <= p < order.len() && order[p] == i;
            let k = choose|k: int| 0 <= k < lists[i].len() && lists[i][k] == j;
            assert(schedule::released(lists, order.take(p), order[p]));
            assert(order.take(p).contains(lists[i][k]));
            let q = choose|q: int| 0 <= q < order.take(p).len() && order.take(p)[q] == j;
            assert(order[q] == j);
            assert(schedule::startable(lists, j as usize));
            assert(dag::can_start(graph, j));
        }
    }
    if reported(names@, specs@[i].name@) {
        let l = schedule::lemma_stuck_dependency(lists, i as usize);
        lemma_declares(specs@, i, l as int);
        assert(!dag::can_start(graph, l as int));
        assert(reported(names@, specs@[l as int].name@));
    }
    assert forall|a: int, b: int|
        0 <= a < names@.len() && 0 <= b < names@.len() && (#[trigger] names@[a])@
            == specs@[i].name@ && (#[trigger] names@[b])@ == specs@[j].name@ implies (a < b <==> i
        < j) by {
        assert(stuck[a] == i) by {
            if stuck[a] < i {
                assert(specs@[stuck[a]].name@ != specs@[i].name@);
            } else if i < stuck[a] {
                assert(specs@[i].name@ != specs@[stuck[a]].name@);
            }
        }
        assert(stuck[b] == j) by {
            if stuck[b] < j {
                assert(specs@[stuck[b]].name@ != specs@[j].name@);
            } else if j < stuck[b] {
                assert(specs@[j].name@ != specs@[stuck[b]].name@);
            }
        }
    }
    assert forall|a: int| 0 <= a < names@.len() implies has_name(
        specs@,
        (#[trigger] names@[a])@,
    ) by {
        assert(names@[a]@ == specs@[stuck[a]].name@);
    }
}

/// `name` is among these names.
pub open spec fn reported(names: Seq<ServiceName>, name: Seq<char>) -> bool {
    exists|a: int| 0 <= a < names.len() && (#[trigger] names[a])@ == name
}

/// Sorting gives the same outcome for the same names and dependencies, whatever runs the
/// services.
pub proof fn law_order_depends_on_names_alone<A, B>(
    specs: &[ServiceSpec<A>],
    others: &[ServiceSpec<B>],
    a: Result<Vec<usize>, DagError>,
    b: Result<Vec<usize>, DagError>,
)
    requires
        specs@.len() <= usize::MAX,
        call_ensures(topo_sort::<A>, (specs,), a),
        call_ensures(topo_sort::<B>, (others,), b),
        specs@.len() == others@.len(),
        forall|i: int|
            0 <= i < specs@.len() ==> (#[trigger] specs@[i]).name@ == others@[i].name@
                && specs@[i].deps@.len() == others@[i].deps@.len(),
        forall|i: int, k: int|
            0 <= i < specs@.len() && 0 <= k < specs@[i].deps@.len()
                ==> (#[trigger] specs@[i].deps@[k])@ == others@[i].deps@[k]@,
    ensures
        a is Ok <==> b is Ok,
        a matches Ok(x) ==> b matches Ok(y) && x@ == y@,
        dag::outcome_view(a) == dag::outcome_view(b),
{
    let left = dag::nodes(specs@);
    let right = dag::nodes(others@);
    assert forall|i: int| 0 <= i < left.len() implies left[i] == right[i] by {
        assert(specs@[i].name@ == others@[i].name@);
        assert(left[i].deps =~= right[i].deps);
    }
    assert(left =~= right);
    dag::law_sort_deterministic(left, a, b);
}

} // verus!
