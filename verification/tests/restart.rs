use std::time::Duration;

use runtime::runtime::{
    handle_failure, start_services, supervision_step, Action, Event, Reaction, ServiceState,
    ServiceTask, TaskAction, TaskEvent,
};
use runtime::{
    DynServiceError, ExhaustedAction, OnError, RestartPolicy, RuntimeBuilder, RuntimeError,
    RuntimeHandle, ShutdownReason,
};

type States = Vec<ServiceState<OnError<f64>, f64>>;

fn spread_of(jitter: &f64, ms: u64) -> u64 {
    if *jitter > 0.0 {
        ((ms as f64) * jitter.clamp(0.0, 1.0)) as u64
    } else {
        0
    }
}

fn started(services: &[(&'static str, OnError<f64>)]) -> (RuntimeHandle, States) {
    let mut builder = RuntimeBuilder::new();
    for (name, policy) in services {
        builder = builder.service(name, *policy).unwrap();
    }
    let (handle, specs) = builder.build().into_parts();
    let states =
        start_services::<_, _, (), _>(specs, &|policy: &OnError<f64>| *policy).unwrap();
    (handle, states)
}

fn policy(
    min_ms: u64,
    max_ms: u64,
    max_retries: Option<u32>,
    on_exhausted: ExhaustedAction,
) -> OnError<f64> {
    OnError::Restart(RestartPolicy {
        min_backoff: Duration::from_millis(min_ms),
        max_backoff: Duration::from_millis(max_ms),
        jitter: 0.0,
        max_retries,
        on_exhausted,
    })
}

fn fail(
    states: &mut States,
    handle: &mut RuntimeHandle,
    idx: usize,
    what: &'static str,
) -> Action<&'static str> {
    let err = DynServiceError { service: states[idx].name, source: what };
    supervision_step(states, handle, Event::Failed(idx, err), &spread_of)
}

#[test]
fn restart_recovers_after_transient_failures() {
    let (mut handle, mut states) =
        started(&[("flaky", policy(10, 50, None, ExhaustedAction::ShutdownRuntime))]);
    for (attempt, delay_ms) in [(1, 10), (2, 20), (3, 40)] {
        match fail(&mut states, &mut handle, 0, "flaky") {
            Action::Restart { idx, delay } => {
                assert_eq!(idx, 0);
                assert_eq!(delay, Duration::from_millis(delay_ms));
            }
            _ => panic!("must restart"),
        }
        assert_eq!(states[0].attempts, attempt);
    }
    assert!(!handle.is_shutting_down(), "runtime should still be running");
}

#[test]
fn restart_max_retries_exhausted_shuts_runtime_down() {
    let (mut handle, mut states) =
        started(&[("doomed", policy(5, 20, Some(3), ExhaustedAction::ShutdownRuntime))]);
    let mut total = 1;
    let outcome = loop {
        match fail(&mut states, &mut handle, 0, "doomed") {
            Action::Restart { .. } => total += 1,
            Action::Stop(outcome) => break outcome,
            Action::Wait => panic!("must not be ignored"),
        }
    };
    let err = outcome.unwrap_err();
    assert!(matches!(err, RuntimeError::ServiceFailed(_)), "expected ServiceFailed, got {err:?}");
    // 1 initial run + 3 restarts = 4 attempts total
    assert_eq!(total, 4, "expected exactly 4 attempts, got {total}");
    assert!(handle.is_shutting_down());
    assert_eq!(handle.shutdown_reason(), ShutdownReason::ServiceFailed);
}

#[test]
fn restart_max_retries_exhausted_with_ignore_keeps_runtime_alive() {
    let (mut handle, mut states) = started(&[
        ("doomed", policy(5, 20, Some(2), ExhaustedAction::Ignore)),
        ("bystander", OnError::ShutdownRuntime),
    ]);
    let mut attempts = 1;
    while let Action::Restart { .. } = fail(&mut states, &mut handle, 0, "doomed") {
        attempts += 1;
    }
    assert_eq!(attempts, 3);
    assert!(matches!(fail(&mut states, &mut handle, 0, "doomed"), Action::Wait));
    assert!(!handle.is_shutting_down());
    assert_eq!(states[1].attempts, 0);
}

#[test]
fn ignore_policy_lets_service_exit_without_affecting_runtime() {
    let (mut handle, mut states) =
        started(&[("doomed", OnError::Ignore), ("bystander", OnError::ShutdownRuntime)]);
    handle.mark_ready("doomed");
    assert!(matches!(fail(&mut states, &mut handle, 0, "doomed"), Action::Wait));
    assert_eq!(states[0].attempts, 0, "Ignore = no restart");
    assert!(!handle.is_shutting_down());
    assert!(handle.is_ready("doomed"), "readiness is preserved");
}

#[test]
fn default_policy_is_shutdown_runtime() {
    let (mut handle, mut states) = started(&[("doomed", OnError::default())]);
    match fail(&mut states, &mut handle, 0, "doomed") {
        Action::Stop(Err(RuntimeError::ServiceFailed(err))) => {
            assert_eq!(err.service, "doomed");
            assert_eq!(err.source, "doomed");
        }
        _ => panic!("one failure ends the runtime"),
    }
    assert_eq!(states[0].attempts, 0, "no restart under default");
}

#[test]
fn shutdown_during_restart_backoff_doesnt_hang() {
    let (mut handle, mut states) =
        started(&[("doomed", policy(60_000, 60_000, None, ExhaustedAction::ShutdownRuntime))]);
    let delay = match fail(&mut states, &mut handle, 0, "doomed") {
        Action::Restart { delay, .. } => delay,
        _ => panic!("must restart"),
    };
    let mut task = ServiceTask::new(&states[0].deps, Some(delay));
    match task.action() {
        TaskAction::Sleep(d) => assert_eq!(d, Duration::from_secs(60)),
        _ => panic!("must sleep"),
    }
    handle.request_shutdown(ShutdownReason::Requested);
    task.advance(TaskEvent::Cancelled);
    assert!(matches!(task.action(), TaskAction::Exit));
}

#[test]
fn no_retries_at_all() {
    let (mut handle, mut states) =
        started(&[("once", policy(1, 1, Some(0), ExhaustedAction::ShutdownRuntime))]);
    assert!(matches!(fail(&mut states, &mut handle, 0, "once"), Action::Stop(Err(_))));
    assert_eq!(states[0].attempts, 1);
}

#[test]
fn attempts_saturate() {
    let (mut handle, mut states) =
        started(&[("doomed", policy(1, 8, None, ExhaustedAction::ShutdownRuntime))]);
    states[0].attempts = u32::MAX;
    match fail(&mut states, &mut handle, 0, "doomed") {
        Action::Restart { delay, .. } => assert_eq!(delay, Duration::from_millis(8)),
        _ => panic!("must restart"),
    }
    assert_eq!(states[0].attempts, u32::MAX);
}

#[test]
fn graceful_exit_is_never_restarted() {
    let (mut handle, mut states) =
        started(&[("flaky", policy(10, 50, None, ExhaustedAction::ShutdownRuntime))]);
    let action = supervision_step::<_, _, (), _>(
        &mut states,
        &mut handle,
        Event::Exited(0),
        &spread_of,
    );
    assert!(matches!(action, Action::Wait));
    assert_eq!(states[0].attempts, 0);
    assert!(!handle.is_shutting_down());
}

#[test]
fn reactions_of_each_policy() {
    let (mut handle, mut states) = started(&[
        ("ignored", OnError::Ignore),
        ("again", policy(3, 50, None, ExhaustedAction::ShutdownRuntime)),
        ("fatal", OnError::ShutdownRuntime),
    ]);
    let err = |service: &'static str| DynServiceError { service, source: 1u8 };
    assert!(matches!(
        handle_failure(&mut states, &mut handle, 0, err("ignored"), &spread_of),
        Reaction::Absorb
    ));
    match handle_failure(&mut states, &mut handle, 1, err("again"), &spread_of) {
        Reaction::Restart(delay) => assert_eq!(delay, Duration::from_millis(3)),
        _ => panic!("must restart"),
    }
    assert!(!handle.is_shutting_down());
    assert!(matches!(
        handle_failure(&mut states, &mut handle, 2, err("fatal"), &spread_of),
        Reaction::Escalate(RuntimeError::ServiceFailed(_))
    ));
    assert!(handle.is_shutting_down());
}
