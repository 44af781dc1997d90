//! Scenarios for the per-(subcontroller, key) generation protocol.

use kube_subcontroller::config::subcontroller;
use kube_subcontroller::config::ConstIfFn;
use kube_subcontroller::subscriber::QualifiedName;
use kube_subcontroller::task::GenerationLog;
use kube_subcontroller::task::Phase;
use kube_subcontroller::task::RunOutcome;
use kube_subcontroller::task::Termination;

fn key(name: &str) -> QualifiedName {
    QualifiedName::new(None, name.to_string())
}

/// The event sequence upsert("v1"), upsert("v2"), remove on one
/// subcontroller with the default predicate and extractor, whose run
/// routine sleeps until cancelled: generation 1 starts with "v1";
/// generation 2 starts with "v2" only after generation 1 fully stops;
/// generation 2 is cancelled on the removal and no third generation's
/// work ever starts.
#[test]
fn upsert_upsert_remove_scenario() {
    let mut sub = subcontroller::<QualifiedName, &'static str>();
    let k1 = key("k1");

    // Upsert(K1, "v1"): generation 0 launched with work "v1".
    let plan1 = sub.set_task(&k1, Some(&"v1"));
    assert_eq!(plan1.generation, 0);
    assert_eq!(plan1.work, Some("v1"));
    // Its body runs: no predecessor, token clear, work present.
    sub.generations.signal_prev(0);
    sub.generations.acquire(0);
    assert_eq!(sub.generations.gens[0].phase, Phase::Running);

    // Upsert(K1, "v2"): generation 1 launched with work "v2".
    let plan2 = sub.set_task(&k1, Some(&"v2"));
    assert_eq!(plan2.generation, 1);
    assert_eq!(plan2.work, Some("v2"));
    // Generation 1's body first signals generation 0's token...
    sub.generations.signal_prev(1);
    assert!(sub.generations.gens[0].cancelled);
    // ... the sleep-until-cancelled routine observes it and exits ...
    sub.generations.finish(0, RunOutcome::Success);
    assert_eq!(
        sub.generations.gens[0].phase,
        Phase::Done(Termination::Success)
    );
    // ... and only then does generation 1 begin running "v2".
    sub.generations.acquire(1);
    assert_eq!(sub.generations.gens[1].phase, Phase::Running);

    // Remove(K1): generation 2 launched with no work.
    let plan3 = sub.set_task(&k1, None);
    assert_eq!(plan3.generation, 2);
    assert!(plan3.work.is_none());
    sub.generations.signal_prev(2);
    assert!(sub.generations.gens[1].cancelled);
    sub.generations.finish(1, RunOutcome::Success);
    // Generation 2 has nothing to run: it skips.
    sub.generations.acquire(2);
    assert_eq!(
        sub.generations.gens[2].phase,
        Phase::Done(Termination::Skipped)
    );
    // Exactly three generations; nothing was ever reported.
    assert_eq!(sub.generations.gens.len(), 3);
    assert!(sub.generations.reported.is_empty());
}

/// A predicate rejecting all entries: start never invokes the run
/// routine, for any entry, across any number of calls.
#[test]
fn rejecting_predicate_never_runs() {
    let mut sub =
        subcontroller::<QualifiedName, &'static str>().if_(ConstIfFn(false));
    let k = key("k");
    for (g, entry) in ["a", "b", "c"].iter().enumerate() {
        let plan = sub.set_task(&k, Some(entry));
        assert_eq!(plan.generation, g);
        assert!(plan.work.is_none());
    }
    // Drive every generation to completion: each one skips.
    for g in 0..3 {
        sub.generations.signal_prev(g);
        sub.generations.acquire(g);
        assert_eq!(
            sub.generations.gens[g].phase,
            Phase::Done(Termination::Skipped)
        );
    }
}

/// A predicate with a fixed accepting verdict behaves as the default:
/// every entry's generation has work.
#[test]
fn accepting_predicate_runs() {
    let mut sub =
        subcontroller::<QualifiedName, u64>().if_(ConstIfFn(true));
    let plan = sub.set_task(&key("k"), Some(&41));
    assert_eq!(plan.work, Some(41));
    assert!(sub.generations.gens[0].work);
}

/// A stop and a start with a rejected entry have the same observable
/// effect: the launched generation has no work either way.
#[test]
fn stop_and_reject_converge() {
    let mut stopped =
        subcontroller::<QualifiedName, u64>().if_(ConstIfFn(false));
    let mut rejected =
        subcontroller::<QualifiedName, u64>().if_(ConstIfFn(false));
    let k = key("k");
    let stop_plan = stopped.set_task(&k, None);
    let start_plan = rejected.set_task(&k, Some(&7));
    assert_eq!(stop_plan.work, start_plan.work);
    assert_eq!(
        stopped.generations.gens[0].work,
        rejected.generations.gens[0].work
    );
    assert!(!stopped.generations.gens[0].work);
}

/// A crashed run routine is re-raised to whoever joins the task, and
/// never converted into a reported controller error; the successor
/// generation that joins it crashes in turn.
#[test]
fn crash_propagates_on_join() {
    let mut log = GenerationLog::new();
    let g0 = log.launch(true);
    log.signal_prev(g0);
    log.acquire(g0);
    log.finish(g0, RunOutcome::Crash);
    // Joining observes the crash itself.
    assert_eq!(log.join(g0), Termination::Crashed);
    // The crash was not swallowed as a controller error.
    assert!(log.reported.is_empty());
    // A successor that waits on the crashed generation re-raises it.
    let g1 = log.launch(true);
    log.signal_prev(g1);
    log.acquire(g1);
    assert_eq!(log.gens[g1].phase, Phase::Done(Termination::Crashed));
}

/// A run routine returning an error is reported to the error sink and
/// swallowed; later generations are unaffected.
#[test]
fn controller_error_reported_and_swallowed() {
    let mut log = GenerationLog::new();
    let g0 = log.launch(true);
    log.signal_prev(g0);
    log.acquire(g0);
    log.finish(g0, RunOutcome::Failure);
    assert_eq!(log.gens[g0].phase, Phase::Done(Termination::Failure));
    assert_eq!(log.reported, vec![g0]);
    assert_eq!(log.join(g0), Termination::Failure);
    // The next generation runs normally.
    let g1 = log.launch(true);
    log.signal_prev(g1);
    log.acquire(g1);
    assert_eq!(log.gens[g1].phase, Phase::Running);
    log.finish(g1, RunOutcome::Success);
    assert_eq!(log.reported, vec![g0]);
}

/// A generation superseded before it could begin skips: its own token
/// fired while it was still waiting.
#[test]
fn superseded_generation_skips() {
    let mut log = GenerationLog::new();
    let g0 = log.launch(true);
    // Generation 1 arrives before generation 0's body got anywhere.
    let g1 = log.launch(true);
    // Generation 1's body fires generation 0's token first.
    log.signal_prev(g1);
    assert!(log.gens[g0].cancelled);
    // Generation 0's body, scheduled late, finds its own token already
    // fired and exits without running.
    log.signal_prev(g0);
    log.acquire(g0);
    assert_eq!(log.gens[g0].phase, Phase::Done(Termination::Skipped));
    // Generation 1 now proceeds normally.
    log.acquire(g1);
    assert_eq!(log.gens[g1].phase, Phase::Running);
}

/// Cancelling a task's token is idempotent and observable.
#[test]
fn cancel_is_idempotent() {
    let mut log = GenerationLog::new();
    let g = log.launch(false);
    assert!(!log.gens[g].cancelled);
    log.cancel(g);
    assert!(log.gens[g].cancelled);
    log.cancel(g);
    assert!(log.gens[g].cancelled);
    assert_eq!(log.gens.len(), 1);
}
