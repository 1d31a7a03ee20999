//! Registration of services.
use std::time::Duration;

use vstd::prelude::*;

use crate::runtime::dag;
use crate::runtime::dag::ServiceNode;
use crate::runtime::types::{Runtime, RuntimeHandle, ShutdownReason};
use crate::service::{ServiceName, ServiceSpec, ServiceStartError};
use crate::util;

verus! {

/// Builder for [`Runtime`]. `A` is what runs a service.
///
/// Services are registered with explicit dependencies (by name). Validation
/// (duplicate names, unknown deps, cycles) happens partly here
/// ([`Duplicate`](ServiceStartError::Duplicate)) and partly at run time when the
/// supervisor topologically sorts the graph.
pub struct RuntimeBuilder<A> {
    specs: Vec<ServiceSpec<A>>,
    shutdown_timeout: Option<Duration>,
}

/// Some service is called `name`.
pub open spec fn registered(nodes: Seq<ServiceNode>, name: Seq<char>) -> bool {
    exists|i: int| 0 <= i < nodes.len() && #[trigger] nodes[i].name == name
}

/// No two services have the same name, and none lists a dependency twice.
pub open spec fn distinct(nodes: Seq<ServiceNode>) -> bool {
    &&& forall|i: int, j: int|
        0 <= i < j < nodes.len() ==> #[trigger] nodes[i].name != #[trigger] nodes[j].name
    &&& forall|i: int| 0 <= i < nodes.len() ==> (#[trigger] nodes[i]).deps.no_duplicates()
}

impl<A> RuntimeBuilder<A> {
    /// The services registered so far, as the dependency graph sees them.
    pub closed spec fn nodes(&self) -> Seq<ServiceNode> {
        dag::nodes(self.specs@)
    }

    /// What runs each of them.
    pub closed spec fn adapters(&self) -> Seq<A> {
        Seq::new(self.specs@.len(), |i: int| self.specs@[i].adapter)
    }

    /// The drain timeout, where one was set.
    pub closed spec fn timeout(&self) -> Option<Duration> {
        self.shutdown_timeout
    }

    /// Start a new builder with no services and the default shutdown drain timeout.
    pub fn new() -> (builder: Self)
        ensures
            builder.nodes() == Seq::<ServiceNode>::empty(),
            builder.adapters() == Seq::<A>::empty(),
            builder.timeout() is None,
    {
        let builder = RuntimeBuilder { specs: Vec::new(), shutdown_timeout: None };
        assert(builder.nodes() =~= Seq::<ServiceNode>::empty());
        assert(builder.adapters() =~= Seq::<A>::empty());
        builder
    }

    /// Override the default shutdown drain timeout.
    ///
    /// This is how long the supervisor waits for services to finish after their
    /// cancellation tokens have been triggered, before giving up with
    /// [`RuntimeError::ShutdownTimeout`](crate::RuntimeError::ShutdownTimeout).
    pub fn shutdown_timeout(self, d: Duration) -> (builder: Self)
        ensures
            builder.nodes() == self.nodes(),
            builder.adapters() == self.adapters(),
            builder.timeout() == Some(d),
    {
        RuntimeBuilder { specs: self.specs, shutdown_timeout: Some(d) }
    }

    /// Register a service with no dependencies.
    pub fn service(self, name: ServiceName, adapter: A) -> (registered: Result<
        Self,
        ServiceStartError,
    >)
        ensures
            added(self, name@, adapter, Seq::empty(), registered),
    {
        let none: [ServiceName; 0] = [];
        let registered = self.service_with_deps(name, adapter, &none);
        assert(util::name_views(none@) =~= Seq::empty());
        registered
    }

    /// Register a service that depends on the named services.
    ///
    /// Duplicate dep names are silently deduped. Unknown or cyclic dependencies
    /// are reported when the services are sorted, as a
    /// [`RuntimeError::Dag`](crate::RuntimeError::Dag).
    pub fn service_with_deps(self, name: ServiceName, adapter: A, deps: &[ServiceName]) -> (registered:
        Result<Self, ServiceStartError>)
        ensures
            added(self, name@, adapter, util::name_views(deps@), registered),
    {
        let mut i: usize = 0;
        while i < self.specs.len()
            invariant
                i <= self.specs@.len(),
                forall|j: int| 0 <= j < i ==> (#[trigger] self.nodes()[j]).name != name@,
            decreases self.specs@.len() - i,
        {
            if util::same_name(self.specs[i].name, name) {
                assert(self.nodes()[i as int].name == name@);
                return Err(ServiceStartError::Duplicate(name));
            }
            i += 1;
        }
        let deps: Vec<ServiceName> = util::dedup_preserve_order(deps);
        let mut specs: Vec<ServiceSpec<A>> = self.specs;
        specs.push(ServiceSpec { name, deps, adapter });
        let builder = RuntimeBuilder { specs, shutdown_timeout: self.shutdown_timeout };
        proof {
            let node = ServiceNode { name: name@, deps: util::name_views(deps@) };
            assert(builder.nodes() =~= self.nodes().push(node));
            assert(builder.adapters() =~= self.adapters().push(adapter));
        }
        Ok(builder)
    }

    /// Build the runtime.
    pub fn build(self) -> (runtime: Runtime<A>)
        ensures
            runtime.wf(),
            dag::nodes(runtime.specs()) == self.nodes(),
            runtime.specs().len() == self.adapters().len(),
            forall|i: int|
                0 <= i < runtime.specs().len() ==> (#[trigger] runtime.specs()[i]).adapter
                    == self.adapters()[i],
            runtime.state().token.live_root(),
            runtime.state().reason == ShutdownReason::Requested,
            self.timeout() matches Some(d) ==> runtime.state().shutdown_timeout == d,
            self.timeout() is None ==> util::duration_nanos(runtime.state().shutdown_timeout)
                == util::DEFAULT_SHUTDOWN_TIMEOUT_MS * util::nanos_per_milli(),
            forall|name: Seq<char>| #[trigger]
                runtime.state().readiness.dom().contains(name) <==> registered(self.nodes(), name),
            forall|name: Seq<char>| !#[trigger] runtime.state().ready(name),
    {
        let mut names: Vec<ServiceName> = Vec::new();
        let mut i: usize = 0;
        while i < self.specs.len()
            invariant
                i <= self.specs@.len(),
                names@.len() == i,
                forall|j: int| 0 <= j < i ==> names@[j] == (#[trigger] self.specs@[j]).name,
            decreases self.specs@.len() - i,
        {
            names.push(self.specs[i].name);
            i += 1;
        }
        let handle = RuntimeHandle::new(self.shutdown_timeout, names.as_slice());
        proof {
            let views = util::name_views(names@);
            assert forall|name: Seq<char>| #[trigger] views.contains(name) <==> registered(
                self.nodes(),
                name,
            ) by {
                if views.contains(name) {
                    let j = choose|j: int| 0 <= j < views.len() && views[j] == name;
                    assert(self.nodes()[j].name == self.specs@[j].name@);
                }
                if registered(self.nodes(), name) {
                    let j = choose|j: int|
                        0 <= j < self.nodes().len() && #[trigger] self.nodes()[j].name == name;
                    assert(views[j] == self.specs@[j].name@);
                }
            }
        }
        Runtime::new(handle, self.specs)
    }
}

/// What registering a service gives: the name is refused if it is taken; otherwise
/// the service comes after those that are there already, each of its dependencies
/// listed once.
pub open spec fn added<A>(
    builder: RuntimeBuilder<A>,
    name: Seq<char>,
    adapter: A,
    deps: Seq<Seq<char>>,
    outcome: Result<RuntimeBuilder<A>, ServiceStartError>,
) -> bool {
    match outcome {
        Ok(after) => {
            &&& !registered(builder.nodes(), name)
            &&& after.nodes() == builder.nodes().push(
                ServiceNode { name, deps: util::first_occurrences(deps) },
            )
            &&& after.adapters() == builder.adapters().push(adapter)
            &&& after.timeout() == builder.timeout()
        },
        Err(ServiceStartError::Duplicate(taken)) => {
            &&& registered(builder.nodes(), name)
            &&& taken@ == name
        },
    }
}

impl<A> Default for RuntimeBuilder<A> {
    fn default() -> (builder: Self)
        ensures
            builder.nodes() == Seq::<ServiceNode>::empty(),
            builder.adapters() == Seq::<A>::empty(),
            builder.timeout() is None,
    {
        RuntimeBuilder::new()
    }
}

/// However services are registered, names stay distinct, and so do the
/// dependencies of each service.
pub proof fn law_builder_keeps_names_distinct<A>(
    builder: RuntimeBuilder<A>,
    name: Seq<char>,
    adapter: A,
    deps: Seq<Seq<char>>,
    outcome: Result<RuntimeBuilder<A>, ServiceStartError>,
)
    requires
        distinct(builder.nodes()),
        added(builder, name, adapter, deps, outcome),
    ensures
        outcome matches Ok(after) ==> distinct(after.nodes()),
        distinct(Seq::empty()),
{
    if let Ok(after) = outcome {
        let before = builder.nodes();
        util::lemma_first_occurrences_members(deps);
        assert forall|i: int, j: int| 0 <= i < j < after.nodes().len() implies #[trigger] after.nodes()[i].name
            != #[trigger] after.nodes()[j].name by {
            if j == before.len() {
                assert(before[i].name == after.nodes()[i].name);
            } else {
                assert(before[i].name != before[j].name);
            }
        }
    }
}

} // verus!
