//! Validation and ordering of the service dependency graph.
use vstd::prelude::*;
use vstd::string::StringExecFns;

use crate::runtime::schedule;
use crate::runtime::schedule::StartOrder;
use crate::service::{ServiceName, ServiceSpec};
use crate::util;

verus! {

/// Errors from validating and ordering the service dependency graph.
#[derive(Debug, PartialEq, Eq)]
pub enum DagError {
    /// A service declared a dependency on a name not registered with the builder.
    UnknownDependency {
        /// The service with the bad dependency.
        service: ServiceName,
        /// The dependency name that was not found.
        dep: ServiceName,
    },
    /// A cycle was detected in the dependency graph. The included names are the
    /// services still on the cycle after Kahn's algorithm has drained the rest.
    Cycle(Vec<ServiceName>),
    /// A service declared itself as a dependency.
    SelfDependency(ServiceName),
}

impl DagError {
    /// What this error says.
    pub open spec fn text(&self) -> Seq<char> {
        match self {
            DagError::UnknownDependency { service, dep } => "service `"@ + service@
                + "` depends on unknown service `"@ + dep@ + "`"@,
            DagError::Cycle(names) => "cycle detected in dependency graph; services involved: "@
                + util::names_text(util::name_views(names@)),
            DagError::SelfDependency(name) => "service `"@ + name@ + "` cannot depend on itself"@,
        }
    }

    /// What this error says.
    pub fn message(&self) -> (message: String)
        ensures
            message@ == self.text(),
    {
        match self {
            DagError::UnknownDependency { service, dep } => "service `".to_owned().concat(
                service,
            ).concat("` depends on unknown service `").concat(dep).concat("`"),
            DagError::Cycle(names) => "cycle detected in dependency graph; services involved: "
                .to_owned().concat(util::show_names(names).as_str()),
            DagError::SelfDependency(name) => "service `".to_owned().concat(name).concat(
                "` cannot depend on itself",
            ),
        }
    }
}

/// A service as the dependency graph sees it.
pub struct ServiceNode {
    /// The service's name.
    pub name: Seq<char>,
    /// The names it depends on.
    pub deps: Seq<Seq<char>>,
}

impl<A> ServiceSpec<A> {
    /// What the dependency graph sees of this service.
    pub open spec fn node(&self) -> ServiceNode {
        ServiceNode { name: self.name@, deps: util::name_views(self.deps@) }
    }
}

/// What the dependency graph sees of a list of services.
pub open spec fn nodes<A>(specs: Seq<ServiceSpec<A>>) -> Seq<ServiceNode> {
    Seq::new(specs.len(), |i: int| specs[i].node())
}

/// The last service called `name`, or -1 where there is none.
pub open spec fn index_of(nodes: Seq<ServiceNode>, name: Seq<char>) -> int
    decreases nodes.len(),
{
    if nodes.len() == 0 {
        -1
    } else if nodes.last().name == name {
        nodes.len() - 1
    } else {
        index_of(nodes.drop_last(), name)
    }
}

/// Dependency `k` of service `i` is the service itself.
pub open spec fn depends_on_itself(nodes: Seq<ServiceNode>, i: int, k: int) -> bool {
    nodes[i].deps[k] == nodes[i].name
}

/// Dependency `k` of service `i` can be followed: it is another, registered service.
pub open spec fn good_dependency(nodes: Seq<ServiceNode>, i: int, k: int) -> bool {
    !depends_on_itself(nodes, i, k) && index_of(nodes, nodes[i].deps[k]) >= 0
}

/// Every dependency can be followed.
pub open spec fn well_connected(nodes: Seq<ServiceNode>) -> bool {
    forall|i: int, k: int|
        0 <= i < nodes.len() && 0 <= k < nodes[i].deps.len() ==> #[trigger] good_dependency(
            nodes,
            i,
            k,
        )
}

/// Dependency `k` of service `i` is the first one that cannot be followed,
/// services taken in registration order and dependencies in declaration order.
pub open spec fn first_bad_dependency(nodes: Seq<ServiceNode>, i: int, k: int) -> bool {
    &&& 0 <= i < nodes.len()
    &&& 0 <= k < nodes[i].deps.len()
    &&& !good_dependency(nodes, i, k)
    &&& forall|i2: int, k2: int|
        0 <= i2 < nodes.len() && 0 <= k2 < nodes[i2].deps.len() && (i2 < i || (i2 == i && k2 < k))
            ==> #[trigger] good_dependency(nodes, i2, k2)
}

/// Dependency `k` of service `i` is the first of its own that cannot be followed, and
/// this error says so.
pub open spec fn refuses_dependency(nodes: Seq<ServiceNode>, i: int, k: int, e: DagError) -> bool {
    &&& 0 <= k < nodes[i].deps.len()
    &&& !good_dependency(nodes, i, k)
    &&& forall|k2: int| 0 <= k2 < k ==> #[trigger] good_dependency(nodes, i, k2)
    &&& match e {
        DagError::SelfDependency(name) => {
            &&& depends_on_itself(nodes, i, k)
            &&& name@ == nodes[i].name
        },
        DagError::UnknownDependency { service, dep } => {
            &&& !depends_on_itself(nodes, i, k)
            &&& service@ == nodes[i].name
            &&& dep@ == nodes[i].deps[k]
        },
        DagError::Cycle(_) => false,
    }
}

/// The dependency graph by index.
pub open spec fn targets(nodes: Seq<ServiceNode>) -> Seq<Seq<usize>> {
    Seq::new(
        nodes.len(),
        |i: int|
            Seq::new(nodes[i].deps.len(), |k: int| index_of(nodes, nodes[i].deps[k]) as usize),
    )
}

/// Service `i` can be started: it is not on a cycle and depends on none.
pub open spec fn can_start(nodes: Seq<ServiceNode>, i: int) -> bool {
    schedule::startable(targets(nodes), i as usize)
}

/// The names of those of the first `upto` services that cannot be started.
pub open spec fn stuck_names(nodes: Seq<ServiceNode>, upto: int) -> Seq<Seq<char>>
    decreases upto,
{
    if upto <= 0 {
        Seq::empty()
    } else if can_start(nodes, upto - 1) {
        stuck_names(nodes, upto - 1)
    } else {
        stuck_names(nodes, upto - 1).push(nodes[upto - 1].name)
    }
}

/// What sorting `nodes` gives.
pub open spec fn sorted(nodes: Seq<ServiceNode>, outcome: Result<Vec<usize>, DagError>) -> bool {
    match outcome {
        Ok(order) => {
            &&& well_connected(nodes)
            &&& schedule::is_start_order(targets(nodes), order@)
            &&& order@.len() == nodes.len()
        },
        Err(DagError::SelfDependency(name)) => exists|i: int, k: int| #[trigger]
            first_bad_dependency(nodes, i, k) && depends_on_itself(nodes, i, k) && name@
                == nodes[i].name,
        Err(DagError::UnknownDependency { service, dep }) => exists|i: int, k: int| #[trigger]
            first_bad_dependency(nodes, i, k) && !depends_on_itself(nodes, i, k) && service@
                == nodes[i].name && dep@ == nodes[i].deps[k],
        Err(DagError::Cycle(names)) => {
            &&& well_connected(nodes)
            &&& exists|i: int| 0 <= i < nodes.len() && !#[trigger] can_start(nodes, i)
            &&& util::name_views(names@) == util::first_occurrences(
                stuck_names(nodes, nodes.len() as int),
            )
        },
    }
}

pub proof fn lemma_index_of(nodes: Seq<ServiceNode>, name: Seq<char>)
    ensures
        -1 <= index_of(nodes, name) < nodes.len(),
        index_of(nodes, name) >= 0 ==> nodes[index_of(nodes, name)].name == name,
        forall|j: int| index_of(nodes, name) < j < nodes.len() ==> #[trigger] nodes[j].name != name,
    decreases nodes.len(),
{
    if nodes.len() > 0 && nodes.last().name != name {
        let front = nodes.drop_last();
        lemma_index_of(front, name);
        assert forall|j: int| index_of(nodes, name) < j < nodes.len() implies #[trigger] nodes[j].name
            != name by {
            if j < front.len() {
                assert(front[j] == nodes[j]);
            }
        }
    }
}

/// The last service called `name`, if any.
fn find_service<A>(specs: &[ServiceSpec<A>], name: ServiceName) -> (found: Option<usize>)
    ensures
        match found {
            Some(i) => i == index_of(nodes(specs@), name@),
            None => index_of(nodes(specs@), name@) == -1,
        },
{
    let ghost graph = nodes(specs@);
    let mut i: usize = specs.len();
    proof {
        lemma_index_of(graph, name@);
    }
    while i > 0
        invariant
            i <= specs@.len(),
            graph == nodes(specs@),
            -1 <= index_of(graph, name@) < graph.len(),
            index_of(graph, name@) >= 0 ==> graph[index_of(graph, name@)].name == name@,
            forall|j: int|
                index_of(graph, name@) < j < graph.len() ==> #[trigger] graph[j].name != name@,
            index_of(graph, name@) < i,
        decreases i,
    {
        i -= 1;
        assert(graph[i as int].name == specs@[i as int].name@);
        if util::same_name(specs[i].name, name) {
            return Some(i);
        }
    }
    None
}

/// The dependencies of one service by index, or the first one that cannot be
/// followed.
fn resolve_deps<A>(specs: &[ServiceSpec<A>], i: usize) -> (resolved: Result<Vec<usize>, DagError>)
    requires
        i < specs@.len(),
    ensures
        match resolved {
            Ok(list) => {
                &&& list@ == targets(nodes(specs@))[i as int]
                &&& forall|k: int|
                    0 <= k < nodes(specs@)[i as int].deps.len() ==> #[trigger] good_dependency(
                        nodes(specs@),
                        i as int,
                        k,
                    )
            },
            Err(e) => exists|k: int| #[trigger]
                refuses_dependency(nodes(specs@), i as int, k, e),
        },
{
    let ghost graph = nodes(specs@);
    let spec = &specs[i];
    let mut list: Vec<usize> = Vec::new();
    let mut k: usize = 0;
    while k < spec.deps.len()
        invariant
            i < specs@.len(),
            *spec == specs@[i as int],
            graph == nodes(specs@),
            k <= spec.deps@.len(),
            list@.len() == k,
            forall|j: int| 0 <= j < k ==> list@[j] == #[trigger] targets(graph)[i as int][j],
            forall|j: int| 0 <= j < k ==> #[trigger] good_dependency(graph, i as int, j),
        decreases spec.deps@.len() - k,
    {
        let dep: ServiceName = spec.deps[k];
        assert(graph[i as int].deps[k as int] == dep@);
        if util::same_name(dep, spec.name) {
            let e = DagError::SelfDependency(spec.name);
            assert(refuses_dependency(graph, i as int, k as int, e));
            return Err(e);
        }
        match find_service(specs, dep) {
            Some(target) => {
                assert(good_dependency(graph, i as int, k as int));
                assert(targets(graph)[i as int][k as int] == target);
                list.push(target);
            },
            None => {
                let e = DagError::UnknownDependency { service: spec.name, dep };
                assert(refuses_dependency(graph, i as int, k as int, e));
                return Err(e);
            },
        }
        k += 1;
    }
    assert(list@ =~= targets(graph)[i as int]);
    Ok(list)
}

/// Topologically sort services. Returns indices into `specs` in start order.
///
/// Uses Kahn's algorithm; duplicate dep names within a single service's dep list
/// should already be deduped by the builder, but the algorithm tolerates
/// duplicates by counting indegree per occurrence.
pub fn topo_sort<A>(specs: &[ServiceSpec<A>]) -> (outcome: Result<Vec<usize>, DagError>)
    ensures
        sorted(nodes(specs@), outcome),
{
    let ghost graph = nodes(specs@);
    let n: usize = specs.len();
    let mut deps: Vec<Vec<usize>> = Vec::new();
    let mut i: usize = 0;
    while i < n
        invariant
            i <= n,
            n == specs@.len(),
            graph == nodes(specs@),
            deps@.len() == i,
            forall|v: int| 0 <= v < i ==> (#[trigger] deps@[v])@ == targets(graph)[v],
            forall|v: int, k: int|
                0 <= v < i && 0 <= k < graph[v].deps.len() ==> #[trigger] good_dependency(
                    graph,
                    v,
                    k,
                ),
        decreases n - i,
    {
        match resolve_deps(specs, i) {
            Ok(list) => deps.push(list),
            Err(e) => {
                proof {
                    let k = choose|k: int| #[trigger] refuses_dependency(graph, i as int, k, e);
                    assert(first_bad_dependency(graph, i as int, k));
                }
                return Err(e);
            },
        }
        i += 1;
    }
    let ghost lists = schedule::lists(deps@);
    proof {
        assert(lists =~= targets(graph));
        lemma_targets_in_range(graph);
    }
    let StartOrder { order, blocked_by } = schedule::start_order(&deps);
    if order.len() != n {
        let mut remaining: Vec<ServiceName> = Vec::new();
        let mut v: usize = 0;
        assert(util::name_views(remaining@) =~= stuck_names(graph, 0));
        while v < n
            invariant
                v <= n,
                n == specs@.len(),
                graph == nodes(specs@),
                targets(graph) == schedule::lists(deps@),
                deps@.len() == n,
                blocked_by@.len() == n,
                forall|w: int|
                    0 <= w < n ==> (#[trigger] blocked_by@[w] > 0
                        <==> !schedule::startable(targets(graph), w as usize)),
                util::name_views(remaining@) == stuck_names(graph, v as int),
            decreases n - v,
        {
            if blocked_by[v] > 0 {
                let ghost before = remaining@;
                remaining.push(specs[v].name);
                assert(util::name_views(remaining@) =~= util::name_views(
                    before,
                ).push(graph[v as int].name));
            }
            v += 1;
        }
        proof {
            lemma_someone_left_out(graph, order@);
        }
        return Err(DagError::Cycle(util::dedup_preserve_order(remaining.as_slice())));
    }
    Ok(order)
}

/// A start order that is not as long as the graph leaves out a service that
/// cannot be started.
proof fn lemma_someone_left_out(graph: Seq<ServiceNode>, order: Seq<usize>)
    requires
        schedule::is_start_order(targets(graph), order),
        order.len() != graph.len(),
        graph.len() <= usize::MAX,
    ensures
        exists|i: int| 0 <= i < graph.len() && !#[trigger] can_start(graph, i),
{
    if forall|i: int| 0 <= i < graph.len() ==> #[trigger] can_start(graph, i) {
        let n = graph.len();
        assert forall|i: int| 0 <= i < n implies order.contains(#[trigger] (i as usize)) by {
            assert(can_start(graph, i));
            schedule::lemma_start_order_complete(targets(graph), order, i as usize);
        }
        schedule::lemma_covering_len(order, n);
    }
}

/// The outcome of a sort with names taken as the characters they are made of.
pub enum SortOutcome {
    /// See [`Result::Ok`].
    Order(Seq<usize>),
    /// See [`DagError::UnknownDependency`].
    UnknownDependency(Seq<char>, Seq<char>),
    /// See [`DagError::Cycle`].
    Cycle(Seq<Seq<char>>),
    /// See [`DagError::SelfDependency`].
    SelfDependency(Seq<char>),
}

/// The characters of an outcome.
pub open spec fn outcome_view(outcome: Result<Vec<usize>, DagError>) -> SortOutcome {
    match outcome {
        Ok(order) => SortOutcome::Order(order@),
        Err(DagError::UnknownDependency { service, dep }) => SortOutcome::UnknownDependency(
            service@,
            dep@,
        ),
        Err(DagError::Cycle(names)) => SortOutcome::Cycle(util::name_views(names@)),
        Err(DagError::SelfDependency(name)) => SortOutcome::SelfDependency(name@),
    }
}

/// Sorting the same services always gives the same outcome.
pub proof fn law_sort_deterministic(
    nodes: Seq<ServiceNode>,
    a: Result<Vec<usize>, DagError>,
    b: Result<Vec<usize>, DagError>,
)
    requires
        nodes.len() <= usize::MAX,
        sorted(nodes, a),
        sorted(nodes, b),
    ensures
        outcome_view(a) == outcome_view(b),
{
    assert forall|i: int, k: int, i2: int, k2: int| #[trigger]
        first_bad_dependency(nodes, i, k) && #[trigger] first_bad_dependency(
            nodes,
            i2,
            k2,
        ) implies i == i2 && k == k2 by {
        assert(!good_dependency(nodes, i, k) && !good_dependency(nodes, i2, k2));
    }
    assert forall|i: int, k: int| #[trigger] first_bad_dependency(nodes, i, k) implies !well_connected(
        nodes,
    ) by {
        assert(!good_dependency(nodes, i, k));
    }
    match (a, b) {
        (Ok(x), Ok(y)) => schedule::lemma_start_order_unique(targets(nodes), x@, y@),
        (Ok(x), Err(DagError::Cycle(_))) => lemma_full_order_starts_all(nodes, x@),
        (Err(DagError::Cycle(_)), Ok(y)) => lemma_full_order_starts_all(nodes, y@),
        _ => {},
    }
}

pub proof fn lemma_full_order_starts_all(nodes: Seq<ServiceNode>, order: Seq<usize>)
    requires
        nodes.len() <= usize::MAX,
        schedule::is_start_order(targets(nodes), order),
        order.len() == nodes.len(),
    ensures
        forall|i: int| 0 <= i < nodes.len() ==> #[trigger] can_start(nodes, i),
{
    assert forall|i: int| 0 <= i < nodes.len() implies #[trigger] can_start(nodes, i) by {
        if !order.contains(i as usize) {
            schedule::lemma_distinct_below(order.push(i as usize), nodes.len());
        }
        schedule::lemma_start_order_complete(targets(nodes), order, i as usize);
    }
}

/// The services can be sorted exactly when every dependency is another registered
/// service and no chain of dependencies comes back to where it began; a cycle is
/// reported exactly when the second condition alone fails.
pub proof fn law_sort_succeeds_without_cycles(
    nodes: Seq<ServiceNode>,
    outcome: Result<Vec<usize>, DagError>,
)
    requires
        nodes.len() <= usize::MAX,
        sorted(nodes, outcome),
    ensures
        outcome is Ok <==> well_connected(nodes) && !(exists|walk: Seq<usize>| #[trigger]
            schedule::is_cycle(targets(nodes), walk)),
        (outcome matches Err(DagError::Cycle(_))) <==> well_connected(nodes) && (exists|
            walk: Seq<usize>,
        | #[trigger] schedule::is_cycle(targets(nodes), walk)),
{
    assert forall|i: int, k: int| #[trigger] first_bad_dependency(nodes, i, k) implies !well_connected(
        nodes,
    ) by {
        assert(!good_dependency(nodes, i, k));
    }
    if well_connected(nodes) {
        lemma_targets_in_range(nodes);
        schedule::lemma_stuck_iff_cycle(targets(nodes));
        match outcome {
            Ok(order) => {
                lemma_full_order_starts_all(nodes, order@);
                assert forall|v: usize| v < nodes.len() implies #[trigger] schedule::startable(
                    targets(nodes),
                    v,
                ) by {
                    assert(can_start(nodes, v as int));
                }
            },
            Err(DagError::Cycle(_)) => {
                let i = choose|i: int| 0 <= i < nodes.len() && !#[trigger] can_start(nodes, i);
                assert(!schedule::startable(targets(nodes), i as usize));
            },
            _ => {},
        }
    }
}

pub proof fn lemma_targets_in_range(nodes: Seq<ServiceNode>)
    requires
        nodes.len() <= usize::MAX,
        well_connected(nodes),
    ensures
        schedule::in_range(targets(nodes)),
{
    let lists = targets(nodes);
    assert forall|v: int, k: int| 0 <= v < lists.len() && 0 <= k < lists[v].len() implies 0
        <= #[trigger] lists[v][k] < lists.len() by {
        assert(good_dependency(nodes, v, k));
        lemma_index_of(nodes, nodes[v].deps[k]);
    }
}

/// A successful sort lists every service once, and each service after everything
/// it depends on.
pub proof fn law_dependencies_start_first(
    nodes: Seq<ServiceNode>,
    order: Vec<usize>,
    p: int,
    k: int,
)
    requires
        nodes.len() <= usize::MAX,
        sorted(nodes, Ok(order)),
        0 <= p < order@.len(),
        0 <= k < nodes[order@[p] as int].deps.len(),
    ensures
        order@.no_duplicates(),
        forall|i: int| 0 <= i < nodes.len() ==> order@.contains(#[trigger] (i as usize)),
        exists|q: int|
            0 <= q < p && #[trigger] nodes[order@[q] as int].name
                == nodes[order@[p] as int].deps[k],
{
    lemma_full_order_starts_all(nodes, order@);
    assert forall|i: int| 0 <= i < nodes.len() implies order@.contains(#[trigger] (i as usize)) by {
        assert(can_start(nodes, i));
        schedule::lemma_start_order_complete(targets(nodes), order@, i as usize);
    }
    let v = order@[p];
    let dep = nodes[v as int].deps[k];
    assert(schedule::released(targets(nodes), order@.take(p), v));
    assert(order@.take(p).contains(targets(nodes)[v as int][k]));
    let q = choose|q: int|
        0 <= q < order@.take(p).len() && order@.take(p)[q] == targets(nodes)[v as int][k];
    assert(good_dependency(nodes, v as int, k));
    lemma_index_of(nodes, dep);
    assert(nodes[order@[q] as int].name == dep);
}

} // verus!
