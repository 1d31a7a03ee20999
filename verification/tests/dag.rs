use runtime::runtime::{start_services, ServiceState};
use runtime::{
    topo_sort, DagError, OnError, Runtime, RuntimeBuilder, RuntimeError, ServiceSpec,
    ServiceStartError,
};

/// What ends a run before it begins: the services that would start, in order.
fn start(rt: Runtime<u32>) -> Result<Vec<&'static str>, RuntimeError<()>> {
    let (_handle, specs) = rt.into_parts();
    let states: Vec<ServiceState<u32, f64>> =
        start_services(specs, &|_: &u32| OnError::ShutdownRuntime)?;
    Ok(states.iter().map(|s| s.name).collect())
}

fn spec(name: &'static str, deps: &[&'static str]) -> ServiceSpec<()> {
    ServiceSpec { name, deps: deps.to_vec(), adapter: () }
}

#[test]
fn linear_chain_runs() {
    // a → b → c → d
    let rt = RuntimeBuilder::new()
        .service("a", 0)
        .unwrap()
        .service_with_deps("b", 1, &["a"])
        .unwrap()
        .service_with_deps("c", 2, &["b"])
        .unwrap()
        .service_with_deps("d", 3, &["c"])
        .unwrap()
        .build();
    assert_eq!(start(rt).unwrap(), vec!["a", "b", "c", "d"]);
}

#[test]
fn diamond_runs() {
    // a → b
    // a → c
    // b,c → d
    let rt = RuntimeBuilder::new()
        .service("a", 0)
        .unwrap()
        .service_with_deps("b", 1, &["a"])
        .unwrap()
        .service_with_deps("c", 2, &["a"])
        .unwrap()
        .service_with_deps("d", 3, &["b", "c"])
        .unwrap()
        .build();
    assert_eq!(start(rt).unwrap(), vec!["a", "b", "c", "d"]);
}

#[test]
fn duplicate_deps_are_tolerated() {
    // The builder must collapse the duplicate "a" so the DAG indegree stays
    // correct.
    let rt = RuntimeBuilder::new()
        .service("a", 0)
        .unwrap()
        .service_with_deps("b", 1, &["a", "a", "a"])
        .unwrap()
        .build();
    let (_handle, specs) = rt.into_parts();
    assert_eq!(specs[1].deps, vec!["a"]);
    assert_eq!(topo_sort(&specs), Ok(vec![0, 1]));
}

#[test]
fn sorting_itself_tolerates_duplicate_deps() {
    let specs = [spec("b", &["a", "a", "a"]), spec("a", &[])];
    assert_eq!(topo_sort(&specs), Ok(vec![1, 0]));
}

#[test]
fn unknown_dep_rejected() {
    let rt = RuntimeBuilder::new().service_with_deps("a", 0, &["nonexistent"]).unwrap().build();
    match start(rt) {
        Err(RuntimeError::Dag(DagError::UnknownDependency { service, dep })) => {
            assert_eq!(service, "a");
            assert_eq!(dep, "nonexistent");
        }
        other => panic!("expected UnknownDependency, got {other:?}"),
    }
}

#[test]
fn self_dependency_rejected() {
    let rt = RuntimeBuilder::new().service_with_deps("a", 0, &["a"]).unwrap().build();
    match start(rt) {
        Err(RuntimeError::Dag(DagError::SelfDependency(name))) => assert_eq!(name, "a"),
        other => panic!("expected SelfDependency, got {other:?}"),
    }
}

#[test]
fn cycle_rejected() {
    // a → b → c → a (cycle)
    let rt = RuntimeBuilder::new()
        .service_with_deps("a", 0, &["c"])
        .unwrap()
        .service_with_deps("b", 1, &["a"])
        .unwrap()
        .service_with_deps("c", 2, &["b"])
        .unwrap()
        .build();
    match start(rt) {
        Err(RuntimeError::Dag(DagError::Cycle(names))) => {
            assert!(names.contains(&"a"));
            assert!(names.contains(&"b"));
            assert!(names.contains(&"c"));
            assert_eq!(names.len(), 3);
        }
        other => panic!("expected Cycle, got {other:?}"),
    }
}

#[test]
fn duplicate_service_name_rejected_at_build_time() {
    let result = RuntimeBuilder::new().service("a", 0).unwrap().service("a", 1);
    match result {
        Err(ServiceStartError::Duplicate(name)) => assert_eq!(name, "a"),
        Ok(_) => panic!("expected Duplicate"),
    }
}

#[test]
fn cycle_names_what_hangs_below_it_too() {
    let specs = [
        spec("free", &[]),
        spec("below", &["x"]),
        spec("x", &["y"]),
        spec("y", &["x", "free"]),
    ];
    assert_eq!(topo_sort(&specs), Err(DagError::Cycle(vec!["below", "x", "y"])));
}

#[test]
fn order_follows_release_then_registration() {
    let specs = [
        spec("d", &["b"]),
        spec("c", &["a"]),
        spec("b", &[]),
        spec("a", &[]),
        spec("e", &[]),
    ];
    // b, a and e need nothing; b releases d, a releases c.
    assert_eq!(topo_sort(&specs), Ok(vec![2, 3, 4, 0, 1]));
}

#[test]
fn first_bad_dependency_is_reported() {
    let specs = [spec("a", &["b", "missing"]), spec("b", &["b"])];
    assert_eq!(
        topo_sort(&specs),
        Err(DagError::UnknownDependency { service: "a", dep: "missing" })
    );
    let specs = [spec("a", &["b"]), spec("b", &["b", "missing"])];
    assert_eq!(topo_sort(&specs), Err(DagError::SelfDependency("b")));
}

#[test]
fn nothing_sorts_to_nothing() {
    let specs: [ServiceSpec<()>; 0] = [];
    assert_eq!(topo_sort(&specs), Ok(vec![]));
}

#[test]
fn states_follow_the_start_order() {
    let rt = RuntimeBuilder::new()
        .service_with_deps("late", 7, &["early"])
        .unwrap()
        .service("early", 8)
        .unwrap()
        .build();
    let (_handle, specs) = rt.into_parts();
    let policy_of = |adapter: &u32| -> OnError<f64> {
        if *adapter == 7 {
            OnError::Ignore
        } else {
            OnError::ShutdownRuntime
        }
    };
    let states: Vec<ServiceState<u32, f64>> =
        start_services::<u32, f64, (), _>(specs, &policy_of).unwrap();
    assert_eq!(states.len(), 2);
    assert_eq!((states[0].name, states[0].adapter, states[0].attempts), ("early", 8, 0));
    assert_eq!((states[1].name, states[1].adapter, states[1].attempts), ("late", 7, 0));
    assert!(matches!(states[0].on_error, OnError::ShutdownRuntime));
    assert!(matches!(states[1].on_error, OnError::Ignore));
    assert_eq!(states[1].deps, vec!["early"]);
}

#[test]
fn messages_name_the_services() {
    assert_eq!(
        DagError::UnknownDependency { service: "a", dep: "b" }.message(),
        "service `a` depends on unknown service `b`"
    );
    assert_eq!(
        DagError::Cycle(vec!["a", "b"]).message(),
        "cycle detected in dependency graph; services involved: [\"a\", \"b\"]"
    );
    assert_eq!(DagError::SelfDependency("a").message(), "service `a` cannot depend on itself");
    assert_eq!(ServiceStartError::Duplicate("a").message(), "duplicate service name: a");
}
