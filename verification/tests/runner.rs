use seedwing_enforcer::config::{Config, Dependencies, EnforcerConfig};
use seedwing_enforcer::enforcer::cache::{Cache, DefaultCache, NoCache};
use seedwing_enforcer::enforcer::dependency::Dependency;
use seedwing_enforcer::enforcer::error::Error;
use seedwing_enforcer::enforcer::outcome::{Outcome, Rationale, Response, Severity};
use seedwing_enforcer::enforcer::replay::replay;
use seedwing_enforcer::enforcer::runner::{Evaluation, Request};
use seedwing_enforcer::enforcer::seedwing::Enforcer;
use seedwing_enforcer::utils::progress::ProgressNote;

fn dep(purl: &str) -> Dependency {
    Dependency { purl: purl.to_string() }
}

fn policy() -> Option<Config> {
    Some(Config {
        dependencies: Some(Dependencies {
            policy: "/project/policy.dog".to_string(),
            requires: "version-two".to_string(),
        }),
        enforcer: EnforcerConfig::default(),
    })
}

fn no_policy() -> Option<Config> {
    Some(Config { dependencies: None, enforcer: EnforcerConfig::default() })
}

fn reason(name: &str, severity: Severity, reason: &str) -> Rationale {
    Rationale {
        name: name.to_string(),
        severity,
        reason: reason.to_string(),
        rationale: vec![],
    }
}

fn satisfied() -> Result<Response, Error> {
    Ok(Response { satisfied: true, rationale: reason("enforcer::version-two", Severity::Nothing, "") })
}

fn rejected(why: &str) -> Result<Response, Error> {
    Ok(Response { satisfied: false, rationale: reason("enforcer::version-two", Severity::Error, why) })
}

#[test]
fn no_policy_satisfies_every_dependency_without_the_engine() {
    let mut cache = DefaultCache::default();
    let done = replay(
        &no_policy(),
        &None,
        &mut cache,
        vec![dep("pkg:maven/a/b@1"), dep("pkg:maven/c/d@2")],
        Ok(()),
        vec![rejected("never asked")],
    );
    assert_eq!(done.evaluations, 0);
    assert_eq!(
        done.result.unwrap().unwrap(),
        vec![
            (dep("pkg:maven/a/b@1"), Outcome::Satisfied),
            (dep("pkg:maven/c/d@2"), Outcome::Satisfied),
        ]
    );
    assert_eq!(cache.get(&dep("pkg:maven/a/b@1")), None);
}

#[test]
fn no_configuration_satisfies_every_dependency_and_reports_nothing() {
    let mut cache = DefaultCache::default();
    let done = replay(&None, &None, &mut cache, vec![dep("pkg:maven/a/b@1")], Ok(()), vec![]);
    assert_eq!(done.evaluations, 0);
    assert_eq!(done.notes, vec![]);
    assert_eq!(done.result.unwrap().unwrap(), vec![(dep("pkg:maven/a/b@1"), Outcome::Satisfied)]);
}

#[test]
fn failed_configuration_fails_the_whole_evaluation() {
    let mut cache = DefaultCache::default();
    let done = replay(
        &None,
        &Some("bad yaml".to_string()),
        &mut cache,
        vec![dep("pkg:maven/a/b@1")],
        Ok(()),
        vec![satisfied()],
    );
    assert_eq!(done.evaluations, 0);
    match done.result {
        Some(Err(Error::Configuration(reason))) => assert_eq!(reason, "bad yaml"),
        other => panic!("unexpected: {other:?}"),
    }
}

#[test]
fn a_failed_reload_leaves_the_configuration_in_force() {
    let d = dep("pkg:maven/a/b@1");
    let mut enforcer = Enforcer::new("/project".to_string(), Some(Ok(policy().unwrap())));
    let first = replay(&policy(), &None, enforcer.cache_mut(), vec![d.clone()], Ok(()), vec![rejected("too old")]);
    let first = first.result.unwrap().unwrap();

    enforcer.configure(Some(Err("bad yaml".to_string())));

    let config = policy();
    let failure = Some("bad yaml".to_string());
    assert_eq!(enforcer.config(), &config);
    assert_eq!(enforcer.failure(), &failure);
    let second = replay(&config, &failure, enforcer.cache_mut(), vec![d.clone()], Ok(()), vec![]);
    assert_eq!(second.evaluations, 0);
    assert_eq!(second.result.unwrap().unwrap(), first);
}

#[test]
fn second_evaluation_uses_the_cache() {
    let mut cache = DefaultCache::default();
    let d = dep("pkg:maven/a/b@1");

    let first = replay(&policy(), &None, &mut cache, vec![d.clone()], Ok(()), vec![rejected("too old")]);
    assert_eq!(first.evaluations, 1);
    let first = first.result.unwrap().unwrap();

    let second = replay(
        &policy(),
        &None,
        &mut cache,
        vec![d.clone()],
        Err(Error::Io("the runtime is not asked for".to_string())),
        vec![satisfied()],
    );
    assert_eq!(second.evaluations, 0);
    assert_eq!(second.builds, 0);
    assert_eq!(second.result.unwrap().unwrap(), first);
}

#[test]
fn the_runtime_is_built_once_for_a_miss_and_for_an_empty_list() {
    let mut cache = DefaultCache::default();
    let d = dep("pkg:maven/a/b@1");

    let first = replay(&policy(), &None, &mut cache, vec![d.clone()], Ok(()), vec![satisfied()]);
    assert_eq!((first.builds, first.evaluations), (1, 1));

    let trial = replay(&policy(), &None, &mut cache, vec![], Ok(()), vec![]);
    assert_eq!((trial.builds, trial.evaluations), (1, 0));
    assert_eq!(trial.result.unwrap().unwrap(), vec![]);

    let partly = replay(
        &policy(),
        &None,
        &mut cache,
        vec![d.clone(), dep("pkg:maven/c/d@2")],
        Ok(()),
        vec![satisfied()],
    );
    assert_eq!((partly.builds, partly.evaluations), (1, 1));

    let none = replay(&no_policy(), &None, &mut cache, vec![dep("pkg:maven/e/f@3")], Ok(()), vec![]);
    assert_eq!((none.builds, none.evaluations), (0, 0));
}

#[test]
fn a_cached_list_ends_at_once_and_reports_each_dependency() {
    let d = dep("pkg:maven/a/b@1");
    let mut enforcer = Enforcer::new("/project".to_string(), Some(Ok(policy().unwrap())));
    enforcer.cache_mut().store(&d, Outcome::Satisfied);

    let (_, turn) = enforcer.eval(vec![d.clone()]);
    assert_eq!(
        turn.notes,
        vec![
            ProgressNote::Start { title: "Scanning dependencies".to_string(), total: 2 },
            ProgressNote::Update { message: Some("pkg:maven/a/b@1".to_string()), increment: Some(1) },
        ]
    );
    match turn.request {
        Request::Finish(Ok(results)) => assert_eq!(results, vec![(d, Outcome::Satisfied)]),
        other => panic!("unexpected: {other:?}"),
    }

    let (_, turn) = enforcer.eval(vec![]);
    assert!(matches!(turn.request, Request::BuildRuntime { .. }));
}

#[test]
fn a_repeated_dependency_is_evaluated_once() {
    let mut cache = DefaultCache::default();
    let d = dep("pkg:maven/a/b@1");
    let done = replay(
        &policy(),
        &None,
        &mut cache,
        vec![d.clone(), d.clone()],
        Ok(()),
        vec![rejected("too old"), satisfied()],
    );
    assert_eq!(done.evaluations, 1);
    let results = done.result.unwrap().unwrap();
    assert_eq!(results.len(), 2);
    assert_eq!(results[0], results[1]);
}

#[test]
fn without_a_cache_every_dependency_is_evaluated() {
    let mut cache = NoCache;
    let d = dep("pkg:maven/a/b@1");
    let done = replay(
        &policy(),
        &None,
        &mut cache,
        vec![d.clone(), d.clone()],
        Ok(()),
        vec![rejected("too old"), satisfied()],
    );
    assert_eq!(done.evaluations, 2);
    let results = done.result.unwrap().unwrap();
    assert_eq!(results[1], (d, Outcome::Satisfied));
}

#[test]
fn configure_makes_the_next_evaluation_ask_again() {
    let d = dep("pkg:maven/a/b@1");
    let mut enforcer = Enforcer::new("/project".to_string(), Some(Ok(policy().unwrap())));
    let config = policy();

    let first = replay(&config, &None, enforcer.cache_mut(), vec![d.clone()], Ok(()), vec![rejected("too old")]);
    assert_eq!(first.evaluations, 1);

    enforcer.configure(Some(Ok(policy().unwrap())));

    let second = replay(&config, &None, enforcer.cache_mut(), vec![d.clone()], Ok(()), vec![satisfied()]);
    assert_eq!(second.evaluations, 1);
    assert_eq!(second.result.unwrap().unwrap(), vec![(d, Outcome::Satisfied)]);
}

#[test]
fn failed_configure_keeps_configuration_and_cache() {
    let d = dep("pkg:maven/a/b@1");
    let mut enforcer = Enforcer::new("/project".to_string(), Some(Ok(policy().unwrap())));
    enforcer.cache_mut().store(&d, Outcome::Satisfied);

    enforcer.configure(Some(Err("no good".to_string())));

    assert_eq!(enforcer.config(), &policy());
    assert_eq!(enforcer.failure(), &Some("no good".to_string()));
    assert_eq!(enforcer.cache().get(&d), Some(Outcome::Satisfied));

    enforcer.configure(None);
    assert_eq!(enforcer.config(), &None);
    assert_eq!(enforcer.failure(), &None);
    assert_eq!(enforcer.cache().get(&d), None);
}

#[test]
fn a_rejection_carries_the_rationale() {
    let mut cache = DefaultCache::default();
    let d = dep("pkg:maven/a/b@1");
    let done = replay(&policy(), &None, &mut cache, vec![d.clone()], Ok(()), vec![rejected("version 1 is below 2")]);
    let results = done.result.unwrap().unwrap();
    match &results[0].1 {
        Outcome::Rejected(rationale) => {
            assert_eq!(rationale.name, "enforcer::version-two");
            assert_eq!(rationale.reason, "version 1 is below 2");
        }
        other => panic!("unexpected: {other:?}"),
    }
}

#[test]
fn a_failing_answer_fails_the_batch() {
    let mut cache = DefaultCache::default();
    let done = replay(
        &policy(),
        &None,
        &mut cache,
        vec![dep("pkg:maven/a/b@1"), dep("pkg:maven/c/d@2")],
        Ok(()),
        vec![satisfied(), Err(Error::Runtime("boom".to_string()))],
    );
    assert_eq!(done.evaluations, 2);
    match done.result {
        Some(Err(Error::Runtime(reason))) => assert_eq!(reason, "boom"),
        other => panic!("unexpected: {other:?}"),
    }
}

#[test]
fn a_failed_build_fails_the_batch_without_asking() {
    let mut cache = DefaultCache::default();
    let done = replay(
        &policy(),
        &None,
        &mut cache,
        vec![dep("pkg:maven/a/b@1")],
        Err(Error::Io("no such file".to_string())),
        vec![satisfied()],
    );
    assert_eq!(done.evaluations, 0);
    match done.result {
        Some(Err(Error::Io(reason))) => assert_eq!(reason, "no such file"),
        other => panic!("unexpected: {other:?}"),
    }
}

#[test]
fn answers_that_run_out_leave_no_result() {
    let mut cache = DefaultCache::default();
    let done = replay(&policy(), &None, &mut cache, vec![dep("pkg:maven/a/b@1")], Ok(()), vec![]);
    assert!(done.result.is_none());
    assert_eq!(done.evaluations, 0);
}

#[test]
fn progress_counts_the_setup_and_each_dependency() {
    let mut cache = DefaultCache::default();
    let done = replay(
        &policy(),
        &None,
        &mut cache,
        vec![dep("pkg:maven/a/b@1"), dep("pkg:maven/c/d@2")],
        Ok(()),
        vec![satisfied(), satisfied()],
    );
    assert_eq!(
        done.notes,
        vec![
            ProgressNote::Start { title: "Scanning dependencies".to_string(), total: 3 },
            ProgressNote::Update { message: Some("Building world".to_string()), increment: None },
            ProgressNote::Update { message: Some("pkg:maven/a/b@1".to_string()), increment: Some(1) },
            ProgressNote::Update { message: Some("pkg:maven/c/d@2".to_string()), increment: Some(1) },
        ]
    );
}

#[test]
fn an_evaluation_asks_for_the_build_and_then_for_each_miss() {
    let mut cache = DefaultCache::default();
    cache.store(&dep("pkg:maven/a/b@1"), Outcome::Satisfied);

    let (mut run, turn) = Evaluation::begin(
        &policy(),
        &None,
        &cache,
        vec![dep("pkg:maven/a/b@1"), dep("pkg:maven/c/d@2")],
    );
    match turn.request {
        Request::BuildRuntime { policy } => assert_eq!(policy, "/project/policy.dog"),
        other => panic!("unexpected: {other:?}"),
    }

    let turn = run.built(&cache, Ok(()));
    assert_eq!(turn.notes.len(), 2);
    match turn.request {
        Request::Evaluate { rule, dependency } => {
            assert_eq!(rule, "enforcer::version-two");
            assert_eq!(dependency, dep("pkg:maven/c/d@2"));
        }
        other => panic!("unexpected: {other:?}"),
    }

    let turn = run.evaluated(&mut cache, rejected("too old"));
    assert_eq!(turn.notes.len(), 0);
    match turn.request {
        Request::Finish(Ok(results)) => {
            assert_eq!(results.len(), 2);
            assert_eq!(results[0], (dep("pkg:maven/a/b@1"), Outcome::Satisfied));
            assert_eq!(results[1].0, dep("pkg:maven/c/d@2"));
        }
        other => panic!("unexpected: {other:?}"),
    }
    assert!(cache.get(&dep("pkg:maven/c/d@2")).is_some());
}

#[test]
fn the_trial_of_an_enforcer_without_policy_ends_at_once() {
    let enforcer = Enforcer::new("/project".to_string(), None);
    let (_, turn) = enforcer.eval(vec![]);
    match turn.request {
        Request::Finish(Ok(results)) => assert!(results.is_empty()),
        other => panic!("unexpected: {other:?}"),
    }
}
