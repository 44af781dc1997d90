//! Scenarios for the dispatch loop's fan-out over keys and kinds.

use kube_subcontroller::config::subcontroller;
use kube_subcontroller::config::Builder;
use kube_subcontroller::config::ConstIfFn;
use kube_subcontroller::config::DefaultExtractFn;
use kube_subcontroller::config::DefaultIfFn;
use kube_subcontroller::config::SubcontrollerBuilder;
use kube_subcontroller::runner::RunError;
use kube_subcontroller::runner::Runner;
use kube_subcontroller::subscriber::Event;
use kube_subcontroller::subscriber::QualifiedName;
use kube_subcontroller::task::RunOutcome;

type Kind = SubcontrollerBuilder<QualifiedName, &'static str, DefaultIfFn, DefaultExtractFn>;

fn key(name: &str) -> QualifiedName {
    QualifiedName::new(None, name.to_string())
}

fn upsert(name: &str, entry: &'static str) -> Event<QualifiedName, &'static str> {
    Event { key: key(name), entry: Some(entry), known: false }
}

fn remove(name: &str) -> Event<QualifiedName, &'static str> {
    Event { key: key(name), entry: None, known: true }
}

fn two_kinds() -> Runner<Builder<Kind>> {
    let config = Builder::new()
        .with(subcontroller::<QualifiedName, &'static str>())
        .with(subcontroller::<QualifiedName, &'static str>());
    Runner::new(config)
}

/// Fan-out: an upsert for a fresh key instantiates every declared
/// kind and starts each exactly once, in declaration order, before
/// the next event is processed.
#[test]
fn upsert_fans_out_to_all_kinds() {
    let mut runner = two_kinds();
    runner.step(upsert("k1", "v1"));
    assert_eq!(runner.handles.len(), 1);
    let (handle_key, subs) = &runner.handles[0];
    assert_eq!(handle_key.name, "k1");
    assert_eq!(subs.len(), 2);
    for sub in subs {
        // Each kind accepted exactly one start.
        assert_eq!(sub.generations.gens.len(), 1);
        assert!(sub.generations.gens[0].work);
    }
}

/// A configuration update re-invokes start on every existing instance
/// of the key's handle; no new handle or instance appears.
#[test]
fn update_restarts_existing_handle() {
    let mut runner = two_kinds();
    runner.step(upsert("k1", "v1"));
    runner.step(upsert("k1", "v2"));
    assert_eq!(runner.handles.len(), 1);
    let subs = &runner.handles[0].1;
    assert_eq!(subs.len(), 2);
    for sub in subs {
        assert_eq!(sub.generations.gens.len(), 2);
        assert!(sub.generations.gens[1].work);
    }
}

/// A removal stops every instance of a tracked key's handle; the
/// handle is retained.
#[test]
fn removal_stops_all_kinds() {
    let mut runner = two_kinds();
    runner.step(upsert("k1", "v1"));
    runner.step(remove("k1"));
    assert_eq!(runner.handles.len(), 1);
    for sub in &runner.handles[0].1 {
        assert_eq!(sub.generations.gens.len(), 2);
        // The stop generation has no work to run.
        assert!(!sub.generations.gens[1].work);
    }
}

/// A removal for a never-seen key is a no-op.
#[test]
fn removal_of_unknown_key_is_noop() {
    let mut runner = two_kinds();
    runner.step(remove("ghost"));
    assert_eq!(runner.handles.len(), 0);
}

/// Keys are independent: each gets its own handle with its own
/// instances.
#[test]
fn keys_get_independent_handles() {
    let mut runner = two_kinds();
    runner.step(upsert("k1", "v1"));
    runner.step(upsert("k2", "v2"));
    runner.step(remove("k1"));
    assert_eq!(runner.handles.len(), 2);
    let k1_subs = &runner.handles[0].1;
    let k2_subs = &runner.handles[1].1;
    for sub in k1_subs {
        assert_eq!(sub.generations.gens.len(), 2);
    }
    for sub in k2_subs {
        // k2 was never stopped.
        assert_eq!(sub.generations.gens.len(), 1);
    }
}

/// A kind whose run routine fails immediately does not keep the loop
/// from processing subsequent events for other keys.
#[test]
fn failing_routine_does_not_stop_the_loop() {
    let config = Builder::new().with(subcontroller::<QualifiedName, &'static str>());
    let mut runner = Runner::new(config);
    runner.step(upsert("k1", "v1"));
    {
        let failing = &mut runner.handles[0].1[0];
        failing.generations.signal_prev(0);
        failing.generations.acquire(0);
        // The routine returns an error immediately: reported, swallowed.
        failing.generations.finish(0, RunOutcome::Failure);
        assert_eq!(failing.generations.reported, vec![0]);
    }
    // The loop goes on: an event for another key is dispatched as usual.
    runner.step(upsert("k2", "v2"));
    assert_eq!(runner.handles.len(), 2);
    assert_eq!(runner.handles[1].1[0].generations.gens.len(), 1);
}

/// A predicate rejecting everything yields start generations with no
/// work through the whole dispatch path.
#[test]
fn rejecting_kind_through_dispatch() {
    let config = Builder::new().with(
        subcontroller::<QualifiedName, &'static str>().if_(ConstIfFn(false)),
    );
    let mut runner = Runner::new(config);
    runner.step(upsert("k1", "v1"));
    runner.step(upsert("k1", "v2"));
    for gen in &runner.handles[0].1[0].generations.gens {
        assert!(!gen.work);
    }
}

/// The run consumes events in order and returns success when the
/// event source never failed.
#[test]
fn run_consumes_all_events() {
    let mut runner = two_kinds();
    let items: Vec<Result<_, String>> = vec![
        Ok(upsert("k1", "v1")),
        Ok(upsert("k2", "v1")),
        Ok(remove("k1")),
    ];
    let r = runner.run(items);
    assert!(r.is_ok());
    assert_eq!(runner.handles.len(), 2);
}

/// An event source error aborts the run immediately and is surfaced
/// as the run's terminal result; events before it were dispatched,
/// events after it were not.
#[test]
fn subscribe_error_aborts_run() {
    let mut runner = two_kinds();
    let items: Vec<Result<_, String>> = vec![
        Ok(upsert("k1", "v1")),
        Err("watch stream torn down".to_string()),
        Ok(upsert("k2", "v1")),
    ];
    let r = runner.run(items);
    match r {
        Err(RunError::Subscribe(msg)) => assert_eq!(msg, "watch stream torn down"),
        Ok(()) => panic!("a failing event source must abort the run"),
    }
    assert_eq!(runner.handles.len(), 1);
    assert_eq!(runner.handles[0].0.name, "k1");
}
