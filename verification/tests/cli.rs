use seedwing_enforcer::cli::{Cli, Command, LevelFilter};
use seedwing_enforcer::config::{Config, Dependencies, EnforcerConfig};
use seedwing_enforcer::enforcer::cache::DefaultCache;
use seedwing_enforcer::enforcer::outcome::Response;
use seedwing_enforcer::enforcer::replay::replay;
use seedwing_enforcer::enforcer::seedwing::Enforcer;
use seedwing_enforcer::command::lsp::Lsp;
use seedwing_enforcer::command::once::{exit_code, gathering_failed, summarize, AggregatedResult, Once, Outcome, Output, PolicyResult};
use seedwing_enforcer::enforcer::dependency::Dependency;
use seedwing_enforcer::enforcer::error::Error;
use seedwing_enforcer::enforcer::outcome::{Outcome as Checked, Rationale, Severity};
use seedwing_enforcer::util::{result_to_markdown, severity_as_emoji};

fn dep(purl: &str) -> Dependency {
    Dependency { purl: purl.to_string() }
}

fn node(name: &str, severity: Severity, reason: &str, below: Vec<Rationale>) -> Rationale {
    Rationale { name: name.to_string(), severity, reason: reason.to_string(), rationale: below }
}

#[test]
fn a_scan_of_satisfied_dependencies_is_accepted() {
    let outcome = summarize(Ok(vec![(dep("pkg:a"), Checked::Satisfied), (dep("pkg:b"), Checked::Satisfied)]));
    assert_eq!(outcome.status, AggregatedResult::Accepted);
    assert_eq!(outcome.details.len(), 2);
    assert_eq!(outcome.details[1], PolicyResult { dependency: dep("pkg:b"), response: Checked::Satisfied });
    assert_eq!(exit_code(&outcome.status), 0);
}

#[test]
fn one_rejection_rejects_the_scan() {
    let rejected = Checked::Rejected(node("enforcer::version-two", Severity::Warning, "too old", vec![]));
    let outcome = summarize(Ok(vec![(dep("pkg:a"), Checked::Satisfied), (dep("pkg:b"), rejected.clone())]));
    assert_eq!(outcome.status, AggregatedResult::Rejected);
    assert_eq!(outcome.details[1].response, rejected);
    assert_eq!(exit_code(&outcome.status), 1);
}

#[test]
fn a_failed_policy_is_a_configuration_error() {
    let outcome = summarize(Ok(vec![
        (dep("pkg:a"), Checked::Rejected(node("r", Severity::Error, "x", vec![]))),
        (dep("pkg:b"), Checked::ConfigurationError("first".to_string())),
        (dep("pkg:c"), Checked::ConfigurationError("second".to_string())),
    ]));
    assert_eq!(outcome.status, AggregatedResult::ConfigError("first".to_string()));
    assert_eq!(exit_code(&outcome.status), 1);
}

#[test]
fn a_failed_evaluation_is_a_configuration_error_without_details() {
    let outcome = summarize(Err(Error::Configuration("bad yaml".to_string())));
    assert_eq!(
        outcome,
        Outcome {
            status: AggregatedResult::ConfigError("Error while scanning dependencies : configuration error: bad yaml".to_string()),
            details: vec![],
        }
    );
    let outcome = gathering_failed(&seedwing_enforcer::enforcer::source::Error::NotFound);
    assert_eq!(outcome.status, AggregatedResult::ConfigError("entity not found".to_string()));
    assert_eq!(outcome.details, vec![]);
}

#[test]
fn the_report_lists_each_dependency() {
    let rejected = Checked::Rejected(node(
        "top",
        Severity::Nothing,
        "",
        vec![node("one", Severity::Error, "first", vec![]), node("two", Severity::Error, "second", vec![])],
    ));
    let outcome = summarize(Ok(vec![(dep("pkg:a"), Checked::Satisfied), (dep("pkg:b"), rejected)]));
    assert_eq!(
        result_to_markdown(&outcome),
        "# Seedwing Enforcer Dependency analysis\n\n❌ Rejected ❌\n\n\n| Satisfied | Package URL | Reason |\n| --------- | ----------- | ------ |\n| ✔ | pkg:a | | \n| ❌ | pkg:b | `one` : first<br>`two` : second | \n"
    );
}

#[test]
fn the_report_of_an_accepted_scan_and_of_a_broken_one() {
    let outcome = summarize(Ok(vec![]));
    assert_eq!(
        result_to_markdown(&outcome),
        "# Seedwing Enforcer Dependency analysis\n\n✔ Accepted ✔️\n\n\n| Satisfied | Package URL | Reason |\n| --------- | ----------- | ------ |\n"
    );
    let outcome = summarize(Err(Error::Runtime("x".to_string())));
    assert_eq!(
        result_to_markdown(&outcome),
        "# Seedwing Enforcer Dependency analysis\n\nConfiguration Error ❌\n"
    );
}

#[test]
fn each_severity_has_its_sign() {
    assert_eq!(severity_as_emoji(Severity::Nothing), "✔");
    assert_eq!(severity_as_emoji(Severity::Advice), "💡");
    assert_eq!(severity_as_emoji(Severity::Warning), "⚠️");
    assert_eq!(severity_as_emoji(Severity::Error), "❌");
}

#[test]
fn the_flags_set_the_level() {
    let cli = |quiet, verbose| Cli { command: Command::Lsp(Lsp {}), quiet, verbose };
    assert_eq!(cli(true, 3).level(), LevelFilter::Off);
    assert_eq!(cli(false, 0).level(), LevelFilter::Warn);
    assert_eq!(cli(false, 1).level(), LevelFilter::Info);
    assert_eq!(cli(false, 2).level(), LevelFilter::Debug);
    assert_eq!(cli(false, 9).level(), LevelFilter::Trace);
    assert_eq!(Lsp::server_name(), "Seedwing Enforcer");
}

#[test]
fn the_scan_looks_in_the_current_directory_by_default() {
    let once = Once { root: None, output: Output::default() };
    assert_eq!(once.source_root(), "./");
    assert_eq!(once.output, Output::Markdown);
    let once = Once { root: Some("/p".to_string()), output: Output::Json };
    assert_eq!(once.source_root(), "/p");
    assert_eq!(Once::default_root(), "./");
    let command = Command::Once(once);
    assert!(matches!(command, Command::Once(_)));
}

fn version_two() -> Config {
    Config {
        dependencies: Some(Dependencies { policy: "/p/policy.dog".to_string(), requires: "version-two".to_string() }),
        enforcer: EnforcerConfig::default(),
    }
}

#[test]
fn a_dependency_below_the_required_version_rejects_the_scan() {
    let declared = dep("pkg:maven/org.example/lib@1");
    let answer = Response {
        satisfied: false,
        rationale: node("enforcer::version-two", Severity::Error, "version 1 is below 2", vec![]),
    };
    let mut cache = DefaultCache::default();
    let done = replay(&Some(version_two()), &None, &mut cache, vec![declared.clone()], Ok(()), vec![Ok(answer)]);

    let results = done.result.unwrap().unwrap();
    assert_eq!(results.len(), 1);
    match &results[0].1 {
        Checked::Rejected(rationale) => assert_eq!(rationale.name, "enforcer::version-two"),
        other => panic!("unexpected: {other:?}"),
    }

    let outcome = summarize(Ok(results));
    assert_eq!(outcome.status, AggregatedResult::Rejected);
    assert_eq!(outcome.status.label(), "rejected");
    assert_eq!(outcome.details.len(), 1);
    assert_ne!(exit_code(&outcome.status), 0);
}

#[test]
fn an_invalid_marker_file_fails_the_scan_without_the_engine() {
    let enforcer = Enforcer::new("/p".to_string(), Some(Err("mapping values are not allowed".to_string())));
    let mut cache = DefaultCache::default();
    let done = replay(
        enforcer.config(),
        enforcer.failure(),
        &mut cache,
        vec![dep("pkg:maven/org.example/lib@1")],
        Ok(()),
        vec![],
    );
    assert_eq!(done.evaluations, 0);

    let outcome = summarize(done.result.unwrap());
    assert_eq!(
        outcome.status,
        AggregatedResult::ConfigError(
            "Error while scanning dependencies : configuration error: mapping values are not allowed".to_string()
        )
    );
    assert_eq!(outcome.status.label(), "configuration-error");
    assert_eq!(outcome.details, vec![]);
    assert_eq!(exit_code(&outcome.status), 1);
    assert_eq!(AggregatedResult::Accepted.label(), "accepted");
}
