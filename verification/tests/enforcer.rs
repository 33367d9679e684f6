use seedwing_enforcer::config::{find, resolve, try_load, Config, Dependencies, EnforcerConfig, Loaded, ManifestType, RationaleVariant, FILE_NAME_YAML};
use seedwing_enforcer::diagnostic::DiagnosticSeverity;
use seedwing_enforcer::enforcer::cache::{Cache, DefaultCache, NoCache};
use seedwing_enforcer::enforcer::dependency::Dependency;
use seedwing_enforcer::enforcer::error::{BuildError, Error, Span};
use seedwing_enforcer::enforcer::outcome::{Outcome, Rationale, Response, Severity};
use seedwing_enforcer::enforcer::render::ResponseRenderer;
use seedwing_enforcer::enforcer::runner::Request;
use seedwing_enforcer::enforcer::seedwing::{diag_from_build_errors, DiagnosticConverter, Enforcer};
use seedwing_enforcer::highlight::{Position, Range};
use seedwing_enforcer::utils::pool::PoolError;
use seedwing_enforcer::utils::span_to_range;
use seedwing_enforcer::utils::text::decimal;

fn dep(purl: &str) -> Dependency {
    Dependency { purl: purl.to_string() }
}

fn policy() -> Config {
    Config {
        dependencies: Some(Dependencies {
            policy: "policy.dog".to_string(),
            requires: "version-two".to_string(),
        }),
        enforcer: EnforcerConfig::default(),
    }
}

fn node(name: &str, severity: Severity, reason: &str, below: Vec<Rationale>) -> Rationale {
    Rationale { name: name.to_string(), severity, reason: reason.to_string(), rationale: below }
}

#[test]
fn severities_are_ordered() {
    assert!(Severity::Nothing < Severity::Advice);
    assert!(Severity::Advice < Severity::Warning);
    assert!(Severity::Warning < Severity::Error);
    assert_eq!(Severity::Advice.max(Severity::Error), Severity::Error);
    assert_eq!(Severity::Warning.max(Severity::Advice), Severity::Warning);
    assert_eq!(Severity::Nothing.level(), 0);
    assert_eq!(Severity::Error.level(), 3);
    assert_eq!(Severity::Warning.name(), "warning");
}

#[test]
fn the_highest_severity_is_the_maximum_in_the_tree() {
    let tree = node(
        "top",
        Severity::Advice,
        "a",
        vec![
            node("left", Severity::Nothing, "b", vec![node("deep", Severity::Error, "c", vec![])]),
            node("right", Severity::Warning, "d", vec![]),
        ],
    );
    assert_eq!(tree.highest_severity(), Severity::Error);
    assert_eq!(node("leaf", Severity::Warning, "", vec![]).highest_severity(), Severity::Warning);
}

#[test]
fn the_topmost_findings_of_the_highest_severity_are_collected() {
    let tree = node(
        "top",
        Severity::Advice,
        "a",
        vec![
            node("left", Severity::Error, "b", vec![node("deep", Severity::Error, "c", vec![])]),
            node("right", Severity::Error, "d", vec![]),
        ],
    );
    let collected = tree.collect_highest();
    assert_eq!(collected.len(), 2);
    assert_eq!(collected[0].name, "left");
    assert_eq!(collected[0].rationale.len(), 1);
    assert_eq!(collected[1].name, "right");
}

#[test]
fn outcome_severity_follows_the_result() {
    assert_eq!(Outcome::Satisfied.severity(), Severity::Nothing);
    assert_eq!(Outcome::ConfigurationError("x".to_string()).severity(), Severity::Error);
    assert_eq!(
        Outcome::Rejected(node("r", Severity::Nothing, "", vec![node("s", Severity::Warning, "", vec![])])).severity(),
        Severity::Warning
    );
}

#[test]
fn a_response_becomes_an_outcome() {
    let satisfied = Response { satisfied: true, rationale: node("r", Severity::Nothing, "", vec![]) };
    assert_eq!(satisfied.into_outcome(), Outcome::Satisfied);
    let rejected = Response { satisfied: false, rationale: node("r", Severity::Error, "no", vec![]) };
    assert_eq!(rejected.into_outcome(), Outcome::Rejected(node("r", Severity::Error, "no", vec![])));
}

#[test]
fn rationales_render_as_nested_lists() {
    let list = vec![node("rule", Severity::Error, "too old", vec![node("inner", Severity::Advice, "hm", vec![])])];
    let html = ResponseRenderer(&list).render();
    let expected = concat_all(&[
        "<ul class=\"swe-response\">",
        "<li class=\"swe-severity-error\">",
        "\n<div class=\"swe-info\">\n    <code class=\"swe-name\">rule</code>\n    <span class=\"swe-severity\">(error)</span>\n    <span class=\"swe-reason\">: too old</span>\n</div>\n",
        "<ul class=\"swe-response\">",
        "<li class=\"swe-severity-advice\">",
        "\n<div class=\"swe-info\">\n    <code class=\"swe-name\">inner</code>\n    <span class=\"swe-severity\">(advice)</span>\n    <span class=\"swe-reason\">: hm</span>\n</div>\n",
        "<ul class=\"swe-response\"></ul>",
        "</li>",
        "</ul>",
        "</li>",
        "</ul>",
    ]);
    assert_eq!(html, expected);
    assert_eq!(ResponseRenderer(&vec![]).render(), "<ul class=\"swe-response\"></ul>");
}

fn concat_all(parts: &[&str]) -> String {
    let mut all = String::new();
    for part in parts {
        all.push_str(part);
    }
    all
}

#[test]
fn the_cache_keeps_by_package_url() {
    let mut cache = DefaultCache::default();
    assert_eq!(cache.get(&dep("pkg:maven/a/b@1")), None);
    cache.store(&dep("pkg:maven/a/b@1"), Outcome::Satisfied);
    cache.store(&dep("pkg:maven/a/b@2"), Outcome::ConfigurationError("x".to_string()));
    assert_eq!(cache.get(&dep("pkg:maven/a/b@1")), Some(Outcome::Satisfied));
    assert_eq!(cache.get(&dep("pkg:maven/a/b@2")), Some(Outcome::ConfigurationError("x".to_string())));
    cache.store(&dep("pkg:maven/a/b@1"), Outcome::ConfigurationError("y".to_string()));
    assert_eq!(cache.get(&dep("pkg:maven/a/b@1")), Some(Outcome::ConfigurationError("y".to_string())));
    cache.invalidate();
    assert_eq!(cache.get(&dep("pkg:maven/a/b@1")), None);
    assert_eq!(cache.get(&dep("pkg:maven/a/b@2")), None);
}

#[test]
fn no_cache_never_keeps() {
    let mut cache = NoCache;
    cache.store(&dep("pkg:maven/a/b@1"), Outcome::Satisfied);
    assert_eq!(cache.get(&dep("pkg:maven/a/b@1")), None);
}

#[test]
fn a_dependency_is_its_package_url() {
    let parsed = Dependency::parse("pkg:maven/org.example/Foo@1.0").unwrap();
    assert_eq!(parsed.cache_key(), "pkg:maven/org.example/Foo@1.0");
    assert_eq!(parsed.to_text(), "pkg:maven/org.example/Foo@1.0");
    assert_eq!(Dependency::parse("HTTP://Example.COM").unwrap().purl, "http://example.com/");
    assert_eq!(Dependency::parse("no url at all"), None);
}

#[test]
fn errors_say_what_went_wrong() {
    assert_eq!(Error::Configuration("x".to_string()).to_text(), "configuration error: x");
    assert_eq!(Error::Join(PoolError).to_text(), "failed to run: join error");
    assert_eq!(Error::Io("x".to_string()).to_text(), "I/O error: x");
    assert_eq!(Error::Serialization("x".to_string()).to_text(), "serialization error: x");
    assert_eq!(Error::ParsePolicy("p.dog".to_string(), vec![]).to_text(), "parse policy error: p.dog");
    assert_eq!(Error::BuildRuntime(vec![]).to_text(), "build runtime error");
    assert_eq!(Error::Runtime("x".to_string()).to_text(), "runtime error: x");
    assert_eq!(PoolError.message(), "join error");
}

#[test]
fn build_errors_name_their_place() {
    let span = Span { start: 3, end: 17 };
    assert_eq!(span.to_text(), "3..17");
    assert_eq!(BuildError::Parser(span, "unexpected }".to_string()).message(), "unexpected } (3..17)");
    assert_eq!(BuildError::ArgumentMismatch(span).message(), "Argument mismatch (3..17)");
    assert_eq!(BuildError::PatternNotFound(span, "foo::bar".to_string()).message(), "Pattern not found: foo::bar (3..17)");
    assert_eq!(BuildError::ArgumentMismatch(span).span(), span);
}

#[test]
fn numbers_are_written_in_decimal() {
    assert_eq!(decimal(0), "0");
    assert_eq!(decimal(7), "7");
    assert_eq!(decimal(10), "10");
    assert_eq!(decimal(120), "120");
    assert_eq!(decimal(9876543210), "9876543210");
}

#[test]
fn a_span_becomes_lines_and_columns() {
    let rope = ropey::Rope::from_str("ab\ncdef\n");
    assert_eq!(
        span_to_range(&rope, Span { start: 4, end: 6 }),
        Some(Range { start: Position { line: 1, position: 1 }, end: Position { line: 1, position: 3 } })
    );
    assert_eq!(
        span_to_range(&rope, Span { start: 0, end: 8 }),
        Some(Range { start: Position { line: 0, position: 0 }, end: Position { line: 2, position: 0 } })
    );
    assert_eq!(span_to_range(&rope, Span { start: 0, end: 9 }), None);
}

#[test]
fn faults_become_diagnostics_at_their_place() {
    let errors = vec![
        BuildError::Parser(Span { start: 3, end: 5 }, "bad".to_string()),
        BuildError::ArgumentMismatch(Span { start: 100, end: 101 }),
    ];
    let diagnostics = diag_from_build_errors(Some("ab\ncdef"), errors);
    assert_eq!(diagnostics.len(), 2);
    assert_eq!(diagnostics[0].message, "bad (3..5)");
    assert_eq!(diagnostics[0].severity, Some(DiagnosticSeverity::Error));
    assert_eq!(
        diagnostics[0].range,
        Range { start: Position { line: 1, position: 0 }, end: Position { line: 1, position: 2 } }
    );
    assert_eq!(diagnostics[1].message, "Argument mismatch (100..101)");
    assert_eq!(diagnostics[1].range, Range::default());

    let unplaced = diag_from_build_errors(None, vec![BuildError::ArgumentMismatch(Span { start: 3, end: 5 })]);
    assert_eq!(unplaced[0].range, Range::default());
}

#[test]
fn the_converter_works_without_the_source() {
    let none = None;
    let diagnostic = DiagnosticConverter(&none, BuildError::ArgumentMismatch(Span { start: 1, end: 2 })).convert();
    assert_eq!(diagnostic.message, "Argument mismatch (1..2)");
    assert_eq!(diagnostic.range, Range::default());
    assert_eq!(diagnostic.data, None);
}

#[test]
fn an_invalid_marker_file_is_the_one_diagnostic() {
    let enforcer = Enforcer::new("/project".to_string(), Some(Err("did not find expected key".to_string())));

    let (_, turn) = enforcer.eval(vec![]);
    let trial = match turn.request {
        Request::Finish(Err(error)) => {
            match &error {
                Error::Configuration(reason) => assert_eq!(reason, "did not find expected key"),
                other => panic!("unexpected: {other:?}"),
            }
            Err(error)
        }
        other => panic!("unexpected: {other:?}"),
    };

    let found = enforcer.diagnostics(trial, None);
    assert_eq!(found.len(), 1);
    assert_eq!(found[0].0, "/project/.enforcer.yaml");
    assert_eq!(found[0].1.len(), 1);
    assert_eq!(found[0].1[0].message, "did not find expected key");
    assert_eq!(found[0].1[0].severity, Some(DiagnosticSeverity::Error));
}

#[test]
fn a_sound_configuration_has_no_diagnostics() {
    let enforcer = Enforcer::new("/project".to_string(), Some(Ok(policy())));
    assert_eq!(enforcer.diagnostics(Ok(()), None), vec![]);
    let enforcer = Enforcer::new("/project".to_string(), None);
    assert_eq!(enforcer.diagnostics(Ok(()), None), vec![]);
}

#[test]
fn faults_of_the_policy_are_reported_against_the_policy() {
    let enforcer = Enforcer::new("/project".to_string(), Some(Ok(resolve(policy(), "/project"))));

    let error = Error::ParsePolicy(
        "/project/policy.dog".to_string(),
        vec![BuildError::Parser(Span { start: 0, end: 2 }, "bad".to_string())],
    );
    assert_eq!(enforcer.policy_file(&error), Some("/project/policy.dog".to_string()));
    let found = enforcer.diagnostics(Err(error), Some("pattern"));
    assert_eq!(found.len(), 1);
    assert_eq!(found[0].0, "/project/policy.dog");
    assert_eq!(found[0].1[0].message, "bad (0..2)");
    assert_eq!(found[0].1[0].range.end, Position { line: 0, position: 2 });

    let error = Error::BuildRuntime(vec![BuildError::PatternNotFound(Span { start: 1, end: 2 }, "x".to_string())]);
    assert_eq!(enforcer.policy_file(&error), Some("/project/policy.dog".to_string()));
    let found = enforcer.diagnostics(Err(error), None);
    assert_eq!(found[0].0, "/project/policy.dog");
    assert_eq!(found[0].1[0].message, "Pattern not found: x (1..2)");
}

#[test]
fn other_failures_are_reported_against_the_marker_file() {
    let enforcer = Enforcer::new("/project".to_string(), Some(Ok(policy())));
    let error = Error::Runtime("boom".to_string());
    assert_eq!(enforcer.policy_file(&error), None);
    let found = enforcer.diagnostics(Err(error), None);
    assert_eq!(found.len(), 1);
    assert_eq!(found[0].0, "/project/.enforcer.yaml");
    assert_eq!(found[0].1[0].message, "Failed to initialize engine: runtime error: boom");
    assert_eq!(found[0].1[0].severity, Some(DiagnosticSeverity::Error));
}

#[test]
fn a_build_failure_without_policy_is_not_reported() {
    let enforcer = Enforcer::new("/project".to_string(), None);
    assert_eq!(enforcer.diagnostics(Err(Error::BuildRuntime(vec![])), None), vec![]);
}

#[test]
fn the_policy_path_is_resolved_against_the_directory() {
    let resolved = resolve(policy(), "/project");
    assert_eq!(resolved.dependencies.unwrap().policy, "/project/policy.dog");

    let mut absolute = policy();
    absolute.dependencies.as_mut().unwrap().policy = "/etc/policy.dog".to_string();
    assert_eq!(resolve(absolute, "/project").dependencies.unwrap().policy, "/etc/policy.dog");

    let none = Config { dependencies: None, enforcer: EnforcerConfig { source: Some(ManifestType::Cargo) } };
    assert_eq!(resolve(none.clone(), "/project"), none);
}

#[test]
fn loading_tells_missing_from_broken() {
    assert_eq!(try_load("/project", Loaded::Missing), None);
    assert_eq!(try_load("/project", Loaded::Failed("bad".to_string())), Some(Err("bad".to_string())));
    assert_eq!(
        try_load("/project", Loaded::Parsed(policy())).unwrap().unwrap().dependencies.unwrap().policy,
        "/project/policy.dog"
    );
    assert_eq!(FILE_NAME_YAML, ".enforcer.yaml");
    assert_eq!(Config::default().dependencies, None);
    assert_eq!(RationaleVariant::default(), RationaleVariant::Html);
}

#[test]
fn the_nearest_marker_file_decides() {
    assert_eq!(find(vec![]), Ok(None));
    assert_eq!(find(vec![None, None]), Ok(None));
    assert_eq!(find(vec![None, Some(Ok(policy())), Some(Err("above".to_string()))]), Ok(Some(policy())));
    assert_eq!(find(vec![None, Some(Err("broken".to_string())), Some(Ok(policy()))]), Err("broken".to_string()));
}

#[test]
fn a_failed_reload_is_reported_beside_what_the_policy_in_force_has() {
    let mut enforcer = Enforcer::new("/project".to_string(), Some(Ok(resolve(policy(), "/project"))));
    enforcer.configure(Some(Err("bad yaml".to_string())));

    let found = enforcer.diagnostics(Ok(()), None);
    assert_eq!(found.len(), 1);
    assert_eq!(found[0].0, "/project/.enforcer.yaml");
    assert_eq!(found[0].1.len(), 1);
    assert_eq!(found[0].1[0].message, "bad yaml");

    let error = Error::ParsePolicy(
        "/project/policy.dog".to_string(),
        vec![BuildError::ArgumentMismatch(Span { start: 0, end: 1 })],
    );
    let found = enforcer.diagnostics(Err(error), Some("x"));
    assert_eq!(found.len(), 2);
    assert_eq!(found[0].0, "/project/.enforcer.yaml");
    assert_eq!(found[0].1[0].message, "bad yaml");
    assert_eq!(found[1].0, "/project/policy.dog");
    assert_eq!(found[1].1[0].message, "Argument mismatch (0..1)");

    let found = enforcer.diagnostics(Err(Error::Runtime("boom".to_string())), None);
    assert_eq!(found.len(), 1);
    assert_eq!(found[0].1.len(), 2);
    assert_eq!(found[0].1[0].message, "bad yaml");
    assert_eq!(found[0].1[1].message, "Failed to initialize engine: runtime error: boom");
}

#[test]
fn a_plain_verdict_is_nothing_or_an_error() {
    assert_eq!(Severity::of_verdict(true), Severity::Nothing);
    assert_eq!(Severity::of_verdict(false), Severity::Error);
}

#[test]
fn faults_are_reported_against_the_path_as_it_is_resolved() {
    let enforcer = Enforcer::new("project".to_string(), Some(Ok(resolve(policy(), "project"))));
    let error = Error::BuildRuntime(vec![BuildError::ArgumentMismatch(Span { start: 0, end: 1 })]);
    assert_eq!(enforcer.policy_file(&error), Some("project/policy.dog".to_string()));
    let found = enforcer.diagnostics(Err(error), None);
    assert_eq!(found[0].0, "project/policy.dog");
}
