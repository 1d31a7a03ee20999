use std::future::Future;
use std::time::Duration;

use runtime::runtime::{
    drain_outcome, run_outcome, start_services, supervision_step, wait_is_over, wait_report,
    Action, Event, ReadinessSighting, ServiceTask, TaskAction, TaskEvent,
};
use runtime::{OnError, RuntimeBuilder, ShutdownReason};

fn block_on<F: Future>(future: F) -> F::Output {
    tokio::runtime::Builder::new_current_thread().build().unwrap().block_on(future)
}

#[test]
fn handle_is_ready_false_before_mark() {
    let mut rt = RuntimeBuilder::new().service("s", ()).unwrap().build();
    let handle = rt.handle();
    // Before a run starts, the readiness slot exists but is false.
    assert!(!handle.is_ready("s"));
    // Explicit mark, even outside a service, works.
    handle.mark_ready("s");
    assert!(handle.is_ready("s"));
    // Marking is idempotent.
    handle.mark_ready("s");
    assert!(handle.is_ready("s"));
}

#[test]
fn await_ready_for_unknown_service_returns_immediately() {
    let mut rt = RuntimeBuilder::new().service("noop", ()).unwrap().build();
    let handle = rt.handle();
    assert!(handle.watch_readiness("nonexistent").is_none());
    assert!(wait_is_over(ReadinessSighting::Unregistered));
    assert!(!handle.is_ready("nonexistent"));
    handle.mark_ready("nonexistent");
    assert!(!handle.is_ready("nonexistent"));
    assert!(!handle.is_ready("noop"));
}

#[test]
fn waiting_ends_with_the_flag_or_its_sender() {
    assert!(wait_is_over(ReadinessSighting::Flag(true)));
    assert!(!wait_is_over(ReadinessSighting::Flag(false)));
    assert!(wait_is_over(ReadinessSighting::Closed));
}

#[test]
fn watchers_see_the_transition() {
    block_on(async {
        let mut rt = RuntimeBuilder::new()
            .service("a", ())
            .unwrap()
            .service("b", ())
            .unwrap()
            .build();
        let handle = rt.handle();
        let watching = handle.watch_readiness("b").unwrap();
        assert_eq!(handle.readiness_seen("b", &watching), ReadinessSighting::Flag(false));
        let early = handle.watch_readiness("b").unwrap();
        let mut early = handle.readiness_changes("b", early);
        assert!(!*early.borrow());
        handle.mark_ready("a");
        assert_eq!(handle.readiness_seen("b", &watching), ReadinessSighting::Flag(false));
        handle.mark_ready("b");
        assert_eq!(handle.readiness_seen("b", &watching), ReadinessSighting::Flag(true));
        early.changed().await.unwrap();
        assert!(*early.borrow());
        // One that comes after the transition sees it at once.
        let late = handle.watch_readiness("b").unwrap();
        let late = handle.readiness_changes("b", late);
        assert!(*late.borrow());
        assert_eq!(
            handle.readiness_seen("nonexistent", &watching),
            ReadinessSighting::Unregistered
        );
        drop(rt);
        assert!(early.changed().await.is_err());
    });
}

#[test]
fn context_marks_its_own_service() {
    let mut rt = RuntimeBuilder::new()
        .service("a", ())
        .unwrap()
        .service("b", ())
        .unwrap()
        .build();
    let handle = rt.handle();
    let ctx = handle.service_context("a");
    assert_eq!(ctx.name, "a");
    ctx.mark_ready(handle);
    assert!(handle.is_ready("a"));
    assert!(!handle.is_ready("b"));
}

#[test]
fn dependent_waits_until_dep_marks_ready() {
    block_on(async {
        let mut rt = RuntimeBuilder::new()
            .service("delayed", ())
            .unwrap()
            .service_with_deps("dependent", (), &["delayed"])
            .unwrap()
            .build();
        let handle = rt.handle();
        let mut task = ServiceTask::new(&["delayed"], None);
        let dep = match task.action() {
            TaskAction::AwaitReady(dep) => dep,
            _ => panic!("a dependent waits for its dependency first"),
        };
        assert_eq!(dep, "delayed");

        let watching = handle.watch_readiness(dep).unwrap();
        let changes = handle.watch_readiness(dep).unwrap();
        let mut changes = handle.readiness_changes(dep, changes);
        assert!(wait_report(handle.readiness_seen(dep, &watching)).is_none());
        assert!(!changes.has_changed().unwrap());

        // The dependent's own mark does not wake it.
        let dependent = handle.service_context("dependent");
        dependent.mark_ready(handle);
        assert!(!changes.has_changed().unwrap());
        assert!(!wait_is_over(handle.readiness_seen(dep, &watching)));
        assert!(matches!(task.action(), TaskAction::AwaitReady("delayed")));

        let delayed = handle.service_context("delayed");
        delayed.mark_ready(handle);
        assert!(changes.has_changed().unwrap());
        changes.changed().await.unwrap();
        assert!(
            handle.is_ready("delayed"),
            "dependent started before its dep marked ready",
        );
        task.advance(wait_report(handle.readiness_seen(dep, &watching)).unwrap());
        assert!(matches!(task.action(), TaskAction::Run));
    });
}

#[test]
fn dependent_stays_gated_until_dep_ready_and_shutdown_drains() {
    let rt = RuntimeBuilder::new()
        .service("never-ready", ())
        .unwrap()
        .service_with_deps("dependent", (), &["never-ready"])
        .unwrap()
        .shutdown_timeout(Duration::from_secs(2))
        .build();
    let (mut handle, specs) = rt.into_parts();
    let mut states =
        start_services::<(), f64, (), _>(specs, &|_: &()| OnError::default()).unwrap();
    assert_eq!((states[0].name, states[1].name), ("never-ready", "dependent"));

    // The dep runs, but since it never marks ready the dependent must not start.
    let dep = ServiceTask::new(&states[0].deps, None);
    assert!(matches!(dep.action(), TaskAction::Run), "dep should have started running");
    let mut dependent = ServiceTask::new(&states[1].deps, None);
    let ctx = handle.service_context("dependent");
    assert!(matches!(dependent.action(), TaskAction::AwaitReady("never-ready")));
    let watching = handle.watch_readiness("never-ready").unwrap();
    assert!(wait_report(handle.readiness_seen("never-ready", &watching)).is_none());
    handle.mark_ready("dependent");
    assert!(
        wait_report(handle.readiness_seen("never-ready", &watching)).is_none(),
        "dependent must stay gated while its dep is never ready",
    );
    let watched = handle.watch_readiness("never-ready").unwrap();
    assert!(!handle.readiness_changes("never-ready", watched).has_changed().unwrap());
    assert!(!ctx.is_cancelled(&handle));

    // Shutdown still drains both tasks within the timeout.
    handle.request_shutdown(ShutdownReason::Requested);
    assert!(ctx.is_cancelled(&handle));
    assert!(wait_report(handle.readiness_seen("never-ready", &watching)).is_none());
    dependent.advance(TaskEvent::Cancelled);
    assert!(matches!(dependent.action(), TaskAction::Exit));
    let Action::Stop(stopped) = supervision_step::<(), f64, (), _>(
        &mut states,
        &mut handle,
        Event::ShutdownRequested,
        &|_: &f64, _| 0,
    ) else {
        panic!("a requested shutdown stops the runtime");
    };
    run_outcome(stopped, drain_outcome(true, handle.shutdown_timeout())).unwrap();
}

#[test]
fn a_wait_is_reported_done_where_it_is_over() {
    assert!(wait_report(ReadinessSighting::Flag(false)).is_none());
    for seen in
        [ReadinessSighting::Flag(true), ReadinessSighting::Unregistered, ReadinessSighting::Closed]
    {
        assert!(matches!(wait_report(seen), Some(TaskEvent::Done)));
    }
}

#[test]
fn unknown_services_are_said_to_be_unknown() {
    let mut rt = RuntimeBuilder::new().service("a", ()).unwrap().build();
    let handle = rt.handle();
    assert!(handle.mark_ready("a"));
    assert!(!handle.mark_ready("b"));
    let stray = handle.service_context("b");
    assert!(!stray.mark_ready(handle));
    let own = handle.service_context("a");
    assert!(own.mark_ready(handle));
}

#[test]
fn restart_sleeps_before_it_gates() {
    let backoff = Duration::from_millis(250);
    let mut task = ServiceTask::new(&["a", "b"], Some(backoff));
    match task.action() {
        TaskAction::Sleep(d) => assert_eq!(d, backoff),
        _ => panic!("a restart waits out its backoff first"),
    }
    task.advance(TaskEvent::Done);
    assert!(matches!(task.action(), TaskAction::AwaitReady("a")));
    task.advance(TaskEvent::Done);
    assert!(matches!(task.action(), TaskAction::AwaitReady("b")));
    task.advance(TaskEvent::Done);
    assert!(matches!(task.action(), TaskAction::Run));
}

#[test]
fn fresh_start_without_deps_runs_at_once() {
    let mut task = ServiceTask::new(&[], None);
    assert!(matches!(task.action(), TaskAction::Run));
    task.advance(TaskEvent::Cancelled);
    assert!(matches!(task.action(), TaskAction::Exit));
}
