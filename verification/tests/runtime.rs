use std::time::Duration;

use runtime::runtime::{
    drain_outcome, run_outcome, start_services, supervision_step, wait_report, Action, Event,
    RecordedReason, ServiceState, ServiceTask, TaskAction,
};
use runtime::{
    DagError, DynServiceError, OnError, RuntimeBuilder, RuntimeError, RuntimeHandle,
    ShutdownReason,
};

#[derive(Debug, PartialEq)]
struct Boom;

fn no_spread(_: &f64, _: u64) -> u64 {
    0
}

fn supervised(names: &[&'static str]) -> (RuntimeHandle, Vec<ServiceState<(), f64>>) {
    let mut builder = RuntimeBuilder::new();
    for name in names {
        builder = builder.service(name, ()).unwrap();
    }
    let (handle, specs) = builder.build().into_parts();
    let states = start_services::<(), f64, (), _>(specs, &|_: &()| OnError::default()).unwrap();
    (handle, states)
}

fn step<S>(
    handle: &mut RuntimeHandle,
    states: &mut Vec<ServiceState<(), f64>>,
    event: Event<S>,
) -> Action<S> {
    supervision_step(states, handle, event, &no_spread)
}

#[test]
fn two_services_start_and_stop_cleanly() {
    let rt = RuntimeBuilder::new()
        .service("producer", ())
        .unwrap()
        .service_with_deps("consumer", (), &["producer"])
        .unwrap()
        .shutdown_timeout(Duration::from_secs(2))
        .build();
    let (mut handle, specs) = rt.into_parts();
    let mut states =
        start_services::<(), f64, (), _>(specs, &|_: &()| OnError::default()).unwrap();

    // Each service runs once those that it depends on are ready, and is then ready itself.
    let mut contexts = Vec::new();
    for state in &states {
        let mut task = ServiceTask::new(&state.deps, None);
        while let TaskAction::AwaitReady(dep) = task.action() {
            let watching = handle.watch_readiness(dep).unwrap();
            task.advance(wait_report(handle.readiness_seen(dep, &watching)).unwrap());
        }
        assert!(matches!(task.action(), TaskAction::Run));
        let ctx = handle.service_context(state.name);
        ctx.mark_ready(&mut handle);
        contexts.push(ctx);
    }
    let started: Vec<&str> = contexts.iter().map(|ctx| ctx.name).collect();
    assert_eq!(started, vec!["producer", "consumer"], "both services must start");
    assert!(!handle.is_shutting_down());
    assert!(contexts.iter().all(|ctx| !ctx.is_cancelled(&handle)));

    handle.request_shutdown(ShutdownReason::Requested);
    let stops = contexts.iter().filter(|ctx| ctx.is_cancelled(&handle)).count();
    assert_eq!(stops, 2, "both services must stop");
    let action = step::<()>(&mut handle, &mut states, Event::ShutdownRequested);
    let Action::Stop(stopped) = action else {
        panic!("a requested shutdown stops the runtime");
    };
    let drained = drain_outcome(true, handle.shutdown_timeout());
    run_outcome(stopped, drained).unwrap();
    assert_eq!(handle.shutdown_reason(), ShutdownReason::Requested);
    assert!(handle.is_shutting_down());
}

#[test]
fn run_with_ctrl_c_obeys_request_shutdown() {
    let (mut handle, mut states) = supervised(&["producer"]);
    handle.signal_received(false);
    assert!(!handle.is_shutting_down());
    handle.request_shutdown(ShutdownReason::Requested);
    let action = step::<()>(&mut handle, &mut states, Event::ShutdownRequested);
    assert!(matches!(action, Action::Stop(Ok(()))));
}

#[test]
fn signal_shuts_down_with_its_reason() {
    let (mut handle, _states) = supervised(&["producer"]);
    handle.signal_received(true);
    assert!(handle.is_shutting_down());
    assert_eq!(handle.shutdown_reason(), ShutdownReason::Signal);
}

#[test]
fn service_failure_triggers_runtime_shutdown_with_typed_error() {
    let (mut handle, mut states) = supervised(&["bystander", "faulty"]);
    let bystander = handle.service_context("bystander");
    let err = DynServiceError { service: "faulty", source: Boom };
    match step(&mut handle, &mut states, Event::Failed(1, err)) {
        Action::Stop(Err(RuntimeError::ServiceFailed(dyn_err))) => {
            let DynServiceError { service, .. } = &dyn_err;
            assert_eq!(*service, "faulty");
            assert!(
                dyn_err.downcast_ref(|source: &Boom| Some(source)).is_some(),
                "typed error must be recoverable via downcast",
            );
        }
        _ => panic!("expected ServiceFailed"),
    }
    assert_eq!(handle.shutdown_reason(), ShutdownReason::ServiceFailed);
    assert!(bystander.is_cancelled(&handle));
}

#[test]
fn downcast_goes_by_the_cast() {
    let boxed: Box<dyn std::error::Error + Send + Sync> = Box::new(std::fmt::Error);
    let err = DynServiceError { service: "s", source: boxed };
    assert!(err.downcast_ref(|source| source.downcast_ref::<std::fmt::Error>()).is_some());
    assert!(err.downcast_ref(|source| source.downcast_ref::<std::io::Error>()).is_none());
}

#[test]
fn lost_task_is_fatal() {
    let (mut handle, mut states) = supervised(&["a"]);
    match step(&mut handle, &mut states, Event::Lost(Boom)) {
        Action::Stop(Err(RuntimeError::ServiceFailed(err))) => {
            assert_eq!(err.service, "<unknown>");
            assert_eq!(err.source, Boom);
        }
        _ => panic!("expected ServiceFailed"),
    }
    assert!(handle.is_shutting_down());
    assert_eq!(handle.shutdown_reason(), ShutdownReason::ServiceFailed);
}

#[test]
fn drain_timeout_is_enforced() {
    let mut rt = RuntimeBuilder::<()>::new().shutdown_timeout(Duration::from_millis(100)).build();
    let timeout = rt.handle().shutdown_timeout();
    let drained = drain_outcome::<()>(false, timeout);
    match run_outcome(Ok(()), drained) {
        Err(RuntimeError::ShutdownTimeout(d)) => assert_eq!(d, Duration::from_millis(100)),
        other => panic!("expected ShutdownTimeout, got {other:?}"),
    }
    assert!(drain_outcome::<()>(true, timeout).is_ok());
}

#[test]
fn loop_error_comes_before_drain_error() {
    let failed = || RuntimeError::ServiceFailed(DynServiceError { service: "a", source: 1u8 });
    let late = || RuntimeError::ShutdownTimeout(Duration::from_secs(1));
    assert!(run_outcome::<u8>(Ok(()), Ok(())).is_ok());
    assert!(matches!(run_outcome(Err(failed()), Ok(())), Err(RuntimeError::ServiceFailed(_))));
    assert!(matches!(
        run_outcome(Err(failed()), Err(late())),
        Err(RuntimeError::ServiceFailed(_))
    ));
    assert!(matches!(run_outcome(Ok(()), Err(late())), Err(RuntimeError::ShutdownTimeout(_))));
}

#[test]
fn empty_runtime_runs_to_completion() {
    let (mut handle, mut states) = supervised(&[]);
    assert!(states.is_empty());
    let action = step::<()>(&mut handle, &mut states, Event::AllExited);
    assert!(matches!(action, Action::Stop(Ok(()))));
    assert!(!handle.is_shutting_down());
}

#[test]
fn default_drain_timeout() {
    let mut rt = RuntimeBuilder::<()>::default().build();
    assert_eq!(rt.handle().shutdown_timeout(), Duration::from_secs(10));
}

#[test]
fn requesting_shutdown_twice() {
    let (mut handle, _states) = supervised(&[]);
    assert_eq!(handle.shutdown_reason(), ShutdownReason::Requested);
    handle.request_shutdown(ShutdownReason::Signal);
    handle.request_shutdown(ShutdownReason::Signal);
    assert!(handle.is_shutting_down());
    assert_eq!(handle.shutdown_reason(), ShutdownReason::Signal);
}

#[test]
fn cancellation_goes_down_the_tree_only() {
    let (mut handle, _states) = supervised(&["a", "b"]);
    let mut a = handle.service_context("a");
    let b = handle.service_context("b");
    let sub = a.child_cancel();
    assert!(!sub.is_cancelled());
    a.cancel();
    assert!(a.is_cancelled(&handle) && sub.is_cancelled());
    assert!(!b.is_cancelled(&handle));
    assert!(!handle.is_shutting_down());

    let root = handle.cancellation_token();
    assert!(!root.is_cancelled());
    handle.request_shutdown(ShutdownReason::Requested);
    assert!(root.is_cancelled() && b.is_cancelled(&handle));
    let late = handle.service_context("late");
    assert!(late.is_cancelled(&handle));
}

#[test]
fn token_that_was_handed_out_cancels_its_service() {
    let (handle, _states) = supervised(&["a", "b"]);
    let mut a = handle.service_context("a");
    let b = handle.service_context("b");
    let token = a.cancellation_token();
    assert!(!a.is_cancelled(&handle));
    token.cancel();
    assert!(a.is_cancelled(&handle));
    assert!(!b.is_cancelled(&handle));
}

#[test]
fn reasons_round_trip_through_their_numbers() {
    for reason in [ShutdownReason::Requested, ShutdownReason::ServiceFailed, ShutdownReason::Signal] {
        assert_eq!(ShutdownReason::from_u8(reason.as_u8()), reason);
        let mut recorded = RecordedReason::new(ShutdownReason::Requested);
        recorded.store(reason);
        assert_eq!(recorded.load(), reason);
    }
    assert_eq!(ShutdownReason::Requested.as_u8(), 1);
    assert_eq!(ShutdownReason::ServiceFailed.as_u8(), 2);
    assert_eq!(ShutdownReason::Signal.as_u8(), 3);
    assert_eq!(ShutdownReason::from_u8(0), ShutdownReason::Requested);
    assert_eq!(ShutdownReason::from_u8(200), ShutdownReason::Requested);
}

#[test]
fn messages() {
    let show = |n: &u8| format!("code {n}");
    let err = DynServiceError { service: "a", source: 7u8 };
    assert_eq!(err.message(show), "service `a` failed: code 7");
    assert_eq!(
        RuntimeError::ServiceFailed(err).message(show),
        "a service failed: service `a` failed: code 7"
    );
    assert_eq!(
        RuntimeError::<u8>::Dag(DagError::SelfDependency("a")).message(show),
        "dependency graph error: service `a` cannot depend on itself"
    );
    assert_eq!(
        RuntimeError::<u8>::ShutdownTimeout(Duration::from_millis(1500)).message(show),
        "shutdown timed out after 1.5s"
    );
}
