use seedwing_enforcer::backend::file::{collect_code_lens, create_report_command, render_finding, render_findings, Checked, Error, File};
use seedwing_enforcer::backend::notification::{operation_message, OperationMessage, StartOperationParameters, UpdateOperationParameters, FinishOperationParameters, UpdatedDependenciesParameters, UpdatedDependencies, StartOperation, UpdateOperation, FinishOperation};
use seedwing_enforcer::backend::project::{Change, Project, Task};
use seedwing_enforcer::backend::publisher::{Category, DiagnosticPublisher, MockTarget};
use seedwing_enforcer::backend::workspace::{ancestry, as_path, Changed, Folder, Scanned, Workspace, WorkspaceFolder};
use seedwing_enforcer::config::{Config, Dependencies, EnforcerConfig};
use seedwing_enforcer::diagnostic::{Diagnostic, DiagnosticSeverity};
use seedwing_enforcer::enforcer::dependency::Dependency;
use seedwing_enforcer::enforcer::outcome::{Outcome, Rationale, Severity};
use seedwing_enforcer::highlight::{Position, Range};
use seedwing_enforcer::protocol::{Report, SHOW_REPORT};
use seedwing_enforcer::utils::progress::{report, NoProgress, ProgressNote};

fn dep(purl: &str) -> Dependency {
    Dependency { purl: purl.to_string() }
}

fn node(name: &str, severity: Severity, reason: &str, below: Vec<Rationale>) -> Rationale {
    Rationale { name: name.to_string(), severity, reason: reason.to_string(), rationale: below }
}

fn somewhere() -> Range {
    Range { start: Position { line: 3, position: 4 }, end: Position { line: 9, position: 0 } }
}

fn checked(purl: &str, outcome: Outcome, place: Option<(String, Range)>) -> Checked {
    Checked { dependency: dep(purl), outcome, place, raw: "{}".to_string() }
}

fn policy() -> Config {
    Config {
        dependencies: Some(Dependencies { policy: "/p/policy.dog".to_string(), requires: "rule".to_string() }),
        enforcer: EnforcerConfig::default(),
    }
}

#[test]
fn workspace_test() {
    assert_eq!(as_path("file:/foo/bar"), Some("/foo/bar".to_string()));
}

#[test]
fn urls_that_are_no_local_files_have_no_path() {
    assert_eq!(as_path("file:///foo/bar%20baz"), Some("/foo/bar baz".to_string()));
    assert_eq!(as_path("file://example.com/foo"), None);
    assert_eq!(as_path("not a url"), None);
}

#[test]
fn a_satisfied_dependency_is_not_shown() {
    assert_eq!(render_finding(&checked("pkg:a", Outcome::Satisfied, Some(("file:///p/pom.xml".to_string(), somewhere())))), None);
}

#[test]
fn a_dependency_without_a_place_is_not_shown() {
    let rejected = Outcome::Rejected(node("r", Severity::Error, "no", vec![]));
    assert_eq!(render_finding(&checked("pkg:a", rejected, None)), None);
}

#[test]
fn a_rejection_is_shown_with_its_reasons() {
    let rejected = Outcome::Rejected(node(
        "top",
        Severity::Nothing,
        "ignored",
        vec![node("one", Severity::Warning, "first", vec![]), node("two", Severity::Warning, "second", vec![])],
    ));
    let (location, diagnostic) =
        render_finding(&checked("pkg:maven/a/b@1", rejected, Some(("file:///p/pom.xml".to_string(), somewhere())))).unwrap();
    assert_eq!(location, "file:///p/pom.xml");
    assert_eq!(diagnostic.severity, Some(DiagnosticSeverity::Warning));
    assert_eq!(diagnostic.message, "pkg:maven/a/b@1: first, second");
    assert_eq!(diagnostic.range, somewhere());
    let report = diagnostic.data.unwrap();
    assert_eq!(report.title, "pkg:maven/a/b@1");
    assert!(report.html.starts_with("\n<div class=\"swe-response\">\n    <div class=\"swe-reasons\">\n        <ul class=\"swe-response\">"));
    assert!(report.html.contains("<code class=\"swe-name\">one</code>"));
    assert!(report.html.ends_with("<code><pre>{}</pre></code>\n        </details>\n    </div>\n</div>\n"));
}

#[test]
fn severities_map_to_what_the_editor_shows() {
    let place = Some(("file:///p/pom.xml".to_string(), somewhere()));
    let advice = render_finding(&checked("pkg:a", Outcome::Rejected(node("r", Severity::Advice, "x", vec![])), place.clone())).unwrap();
    assert_eq!(advice.1.severity, Some(DiagnosticSeverity::Information));
    let error = render_finding(&checked("pkg:a", Outcome::Rejected(node("r", Severity::Error, "x", vec![])), place.clone())).unwrap();
    assert_eq!(error.1.severity, Some(DiagnosticSeverity::Error));
    let broken = render_finding(&checked("pkg:a", Outcome::ConfigurationError("no engine".to_string()), place)).unwrap();
    assert_eq!(broken.1.severity, Some(DiagnosticSeverity::Error));
    assert_eq!(broken.1.message, "pkg:a: no engine");
}

#[test]
fn only_shown_dependencies_get_a_diagnostic() {
    let place = Some(("file:///p/pom.xml".to_string(), somewhere()));
    let list = render_findings(&vec![
        checked("pkg:a", Outcome::Satisfied, place.clone()),
        checked("pkg:b", Outcome::Rejected(node("r", Severity::Error, "x", vec![])), place.clone()),
        checked("pkg:c", Outcome::Rejected(node("r", Severity::Error, "y", vec![])), None),
        checked("pkg:d", Outcome::Rejected(node("r", Severity::Advice, "z", vec![])), place),
    ]);
    assert_eq!(list.len(), 2);
    assert_eq!(list[0].1.message, "pkg:b: x");
    assert_eq!(list[1].1.message, "pkg:d: z");
}

#[test]
fn a_build_takes_the_results_and_publishes_them() {
    let mut publisher = DiagnosticPublisher::new(MockTarget::default());
    let mut file = File::new("/p/pom.xml".to_string());
    let place = Some(("file:///p/pom.xml".to_string(), somewhere()));

    let update = file
        .build(
            &mut publisher,
            Ok(vec![
                checked("pkg:a", Outcome::Satisfied, place.clone()),
                checked("pkg:b", Outcome::Rejected(node("r", Severity::Error, "x", vec![])), place),
            ]),
        )
        .unwrap();

    assert_eq!(update, UpdatedDependenciesParameters { root: "file:///p/pom.xml".to_string(), dependencies: vec![dep("pkg:a"), dep("pkg:b")] });
    assert_eq!(file.dependencies(), &vec![dep("pkg:a"), dep("pkg:b")]);
    assert_eq!(file.diagnostics().len(), 1);
    let calls = publisher.target_mut().drain();
    assert_eq!(calls.len(), 1);
    assert_eq!(calls[0].0, "file:///p/pom.xml");
    assert_eq!(calls[0].1.len(), 1);
    assert_eq!(calls[0].1[0].message, "pkg:b: x");
}

#[test]
fn a_failed_build_is_one_error_and_no_dependencies() {
    let mut publisher = DiagnosticPublisher::new(MockTarget::default());
    let mut file = File::new("/p/pom.xml".to_string());
    file.build(&mut publisher, Ok(vec![checked("pkg:a", Outcome::Satisfied, None)]));
    publisher.target_mut().clear();

    let update = file.build(&mut publisher, Err(Error::Source("mvn not found".to_string()))).unwrap();

    assert_eq!(update.dependencies, vec![]);
    assert_eq!(file.dependencies(), &vec![]);
    let calls = publisher.target_mut().drain();
    assert_eq!(
        calls,
        vec![(
            "file:///p/pom.xml".to_string(),
            vec![Diagnostic::plain(
                DiagnosticSeverity::Error,
                "Failed to run enforcer: failed to gather dependencies: mvn not found".to_string()
            )]
        )]
    );
}

#[test]
fn a_manifest_without_a_url_is_not_built() {
    let mut publisher = DiagnosticPublisher::new(MockTarget::default());
    let mut file = File::new("pom.xml".to_string());
    assert_eq!(file.build(&mut publisher, Ok(vec![checked("pkg:a", Outcome::Satisfied, None)])), None);
    assert_eq!(file.dependencies(), &vec![]);
    assert_eq!(publisher.target().get(), vec![]);
    assert_eq!(file.code_lens(), vec![]);
}

#[test]
fn file_errors_say_what_went_wrong() {
    assert_eq!(Error::Source("x".to_string()).to_text(), "failed to gather dependencies: x");
    assert_eq!(Error::Io("x".to_string()).to_text(), "I/O error: x");
    assert_eq!(
        Error::Enforcer(seedwing_enforcer::enforcer::error::Error::Runtime("x".to_string())).to_text(),
        "enforcer error: runtime error: x"
    );
}

#[test]
fn code_lenses_group_the_reports_by_range() {
    let a = Report { title: "a".to_string(), html: "<p>a</p>".to_string() };
    let b = Report { title: "b".to_string(), html: "<p>b</p>".to_string() };
    let with = |range: Range, data: Option<Report>| Diagnostic { range, severity: None, message: String::new(), data };
    let lenses = collect_code_lens(&vec![
        with(somewhere(), Some(a.clone())),
        with(Range::default(), None),
        with(somewhere(), Some(b.clone())),
    ]);
    assert_eq!(lenses.len(), 2);
    assert_eq!(lenses[0].range, somewhere());
    let command = lenses[0].command.as_ref().unwrap();
    assert_eq!(command.title, "Show Report (2 entries)");
    assert_eq!(command.command, SHOW_REPORT);
    assert_eq!(command.arguments, vec![a, b]);
    assert_eq!(lenses[1].range, Range::default());
    assert_eq!(lenses[1].command.as_ref().unwrap().title, "Show Report (0 entries)");
    assert_eq!(create_report_command(vec![]).title, "Show Report (0 entries)");
}

#[test]
fn a_file_offers_the_reports_of_its_own_diagnostics() {
    let mut publisher = DiagnosticPublisher::new(MockTarget::default());
    let mut file = File::new("/p/pom.xml".to_string());
    let own = Some(("file:///p/pom.xml".to_string(), somewhere()));
    let other = Some(("file:///p/other.xml".to_string(), somewhere()));
    file.build(
        &mut publisher,
        Ok(vec![
            checked("pkg:a", Outcome::Rejected(node("r", Severity::Error, "x", vec![])), own),
            checked("pkg:b", Outcome::Rejected(node("r", Severity::Error, "y", vec![])), other),
        ]),
    );
    let lenses = file.code_lens();
    assert_eq!(lenses.len(), 1);
    assert_eq!(lenses[0].command.as_ref().unwrap().title, "Show Report (1 entries)");
    assert_eq!(file.code_action(&somewhere()), vec![]);
}

#[test]
fn a_new_project_wants_to_be_configured_and_built() {
    let (project, tasks) = Project::new("/p".to_string(), MockTarget::default(), Some(Ok(policy())), true);
    assert_eq!(project.root(), "/p");
    assert_eq!(tasks, vec![Task::Reconfigure, Task::Build("/p/pom.xml".to_string())]);
    assert_eq!(project.classify("/p/pom.xml"), Change::Known);

    let (_, tasks) = Project::new("/p".to_string(), MockTarget::default(), None, false);
    assert_eq!(tasks, vec![Task::Reconfigure]);
    assert_eq!(Project::<MockTarget>::marker_path("/p"), "/p/.enforcer.yaml");
    assert_eq!(Project::<MockTarget>::manifest_path("/p"), "/p/pom.xml");
}

#[test]
fn a_project_reads_changes_by_what_changed() {
    let (mut project, _) = Project::new("/p".to_string(), MockTarget::default(), None, true);

    assert_eq!(project.classify("/p/sub/pom.xml"), Change::Manifest);
    assert_eq!(project.classify("/p/.enforcer.yaml"), Change::Configuration);
    assert_eq!(project.classify("/p/rules/policy.dog"), Change::Policy);
    assert_eq!(project.classify("/p/src/Main.java"), Change::Unrelated);
    assert_eq!(project.classify("/p/not-pom.xml"), Change::Unrelated);

    assert_eq!(project.changed("/p/pom.xml"), vec![Task::Build("/p/pom.xml".to_string())]);
    assert_eq!(project.changed("/p/src/Main.java"), vec![]);
    assert_eq!(project.changed("/p/sub/pom.xml"), vec![Task::Build("/p/sub/pom.xml".to_string())]);
    assert_eq!(project.classify("/p/sub/pom.xml"), Change::Known);
    assert_eq!(
        project.changed("/p/.enforcer.yaml"),
        vec![
            Task::Reconfigure,
            Task::Build("/p/pom.xml".to_string()),
            Task::Build("/p/sub/pom.xml".to_string()),
        ]
    );
    assert_eq!(
        project.changed("/p/policy.dog"),
        vec![
            Task::Reconfigure,
            Task::Build("/p/pom.xml".to_string()),
            Task::Build("/p/sub/pom.xml".to_string()),
        ]
    );
}

#[test]
fn a_project_reports_its_configuration_and_its_manifests() {
    let (mut project, _) = Project::new("/p".to_string(), MockTarget::default(), None, true);

    project.configure(Some(Err("bad yaml".to_string())));
    let (_, turn) = project.trial();
    let trial = match turn.request {
        seedwing_enforcer::enforcer::runner::Request::Finish(Err(error)) => Err(error),
        other => panic!("unexpected: {other:?}"),
    };
    project.report(trial, None);
    assert_eq!(
        project.target_mut().drain(),
        vec![(
            "file:///p/.enforcer.yaml".to_string(),
            vec![Diagnostic::plain(DiagnosticSeverity::Error, "bad yaml".to_string())]
        )]
    );

    project.configure(Some(Ok(policy())));
    assert_eq!(project.enforcer().failure(), &None);
    project.report(Ok(()), None);
    assert_eq!(project.target_mut().drain(), vec![("file:///p/.enforcer.yaml".to_string(), vec![])]);

    let place = Some(("file:///p/pom.xml".to_string(), somewhere()));
    let update = project.built(
        "/p/pom.xml",
        Ok(vec![checked("pkg:b", Outcome::Rejected(node("r", Severity::Error, "x", vec![])), place)]),
    );
    assert_eq!(update.unwrap().dependencies, vec![dep("pkg:b")]);
    let calls = project.target_mut().drain();
    assert_eq!(calls.len(), 2);
    assert_eq!(calls[0], ("file:///p/.enforcer.yaml".to_string(), vec![]));
    assert_eq!(calls[1].0, "file:///p/pom.xml");
    assert_eq!(calls[1].1[0].message, "pkg:b: x");
    assert_eq!(project.code_lens("/p/pom.xml").len(), 1);
    assert_eq!(project.code_lens("/p/other.xml"), vec![]);
    assert_eq!(project.code_action("/p/pom.xml", &somewhere()), vec![]);

    assert_eq!(project.built("/p/unknown.xml", Ok(vec![])), None);
    assert_eq!(project.target_mut().get(), vec![]);
}

#[test]
fn the_lineage_of_a_path_goes_up_to_the_root() {
    assert_eq!(ancestry("/a/b/c.txt"), vec!["/a/b/c.txt", "/a/b", "/a", "/"]);
    assert_eq!(ancestry("x"), vec!["x", ""]);
}

#[test]
fn a_project_without_its_marker_file_is_dropped() {
    let mut folder = Folder::new("/w".to_string());
    let (one, _) = Project::new("/w/one".to_string(), MockTarget::default(), None, true);
    let (two, _) = Project::new("/w/two".to_string(), MockTarget::default(), None, true);
    folder.adopt(one);
    folder.adopt(two);
    assert_eq!(folder.len(), 2);

    let watch = folder.watch_list("/w/one/pom.xml");
    assert!(watch.contains(&"/w/one".to_string()));
    assert!(!watch.contains(&"/w/two".to_string()));

    let changes = folder.changed("/w/one/pom.xml", &vec![("/w/one".to_string(), false)]);
    assert_eq!(changes, Changed { directives: vec![], opened: vec![] });
    assert_eq!(folder.len(), 1);
    assert_eq!(folder.position("/w/one"), None);
    assert_eq!(folder.position("/w/two"), Some(0));

    // nothing is forwarded for the former project until its marker file is back
    let changes = folder.changed("/w/one/pom.xml", &vec![("/w/one".to_string(), false)]);
    assert_eq!(changes, Changed { directives: vec![], opened: vec![] });
    let changes = folder.changed("/w/one/pom.xml", &vec![("/w/one".to_string(), true)]);
    assert_eq!(changes, Changed { directives: vec![], opened: vec!["/w/one".to_string()] });
    assert_eq!(folder.discover("/w/one/pom.xml", &vec![("/w/one".to_string(), false)]), Vec::<String>::new());
    assert_eq!(
        folder.discover("/w/one/pom.xml", &vec![("/w/one".to_string(), true)]),
        vec!["/w/one".to_string()]
    );
}

#[test]
fn a_change_is_forwarded_to_the_projects_it_lies_in() {
    let mut folder = Folder::new("/w".to_string());
    let (one, _) = Project::new("/w/one".to_string(), MockTarget::default(), None, true);
    let (two, _) = Project::new("/w/two".to_string(), MockTarget::default(), None, false);
    folder.adopt(one);
    folder.adopt(two);

    let changes = folder.changed(
        "/w/one/.enforcer.yaml",
        &vec![("/w/one".to_string(), true), ("/w/two".to_string(), false)],
    );
    assert_eq!(changes.opened, Vec::<String>::new());
    assert_eq!(
        changes.directives,
        vec![(
            "/w/one".to_string(),
            vec![Task::Reconfigure, Task::Build("/w/one/pom.xml".to_string())]
        )]
    );
    assert_eq!(folder.len(), 2);

    // a project that was not probed stays
    let changes = folder.changed("/w/two/pom.xml", &vec![]);
    assert_eq!(
        changes.directives,
        vec![("/w/two".to_string(), vec![Task::Build("/w/two/pom.xml".to_string())])]
    );
}

#[test]
fn directories_outside_the_folder_are_not_discovered() {
    let folder = Folder::<MockTarget>::new("/w".to_string());
    let probes = vec![("/w/one".to_string(), true), ("/w".to_string(), true), ("/".to_string(), true)];
    assert_eq!(folder.discover("/w/one/pom.xml", &probes), vec!["/w/one".to_string(), "/w".to_string()]);
    assert_eq!(folder.root(), "/w");
}

#[test]
fn a_scan_finds_and_drops_projects() {
    let mut folder = Folder::new("/w".to_string());
    assert_eq!(folder.eval("/w/one", true), Scanned::Found);
    assert_eq!(folder.eval("/w/one", false), Scanned::Unchanged);
    let (one, _) = Project::new("/w/one".to_string(), MockTarget::default(), None, false);
    folder.adopt(one);
    assert_eq!(folder.eval("/w/one", true), Scanned::Unchanged);
    assert_eq!(folder.len(), 1);
    assert_eq!(folder.eval("/w/one", false), Scanned::Dropped);
    assert_eq!(folder.len(), 0);
}

#[test]
fn adopting_a_project_twice_replaces_it() {
    let mut folder = Folder::new("/w".to_string());
    let (first, _) = Project::new("/w/one".to_string(), MockTarget::default(), None, false);
    let (second, _) = Project::new("/w/one".to_string(), MockTarget::default(), None, true);
    folder.adopt(first);
    folder.adopt(second);
    assert_eq!(folder.len(), 1);
    assert_eq!(folder.project_mut(0).classify("/w/one/pom.xml"), Change::Known);
    assert_eq!(folder.code_lens("/w/one/pom.xml"), vec![]);
    assert_eq!(folder.code_action("/w/one/pom.xml", &somewhere()), vec![]);
}

fn announced(uri: &str) -> WorkspaceFolder {
    WorkspaceFolder { uri: uri.to_string(), name: uri.to_string() }
}

#[test]
fn folders_come_and_go() {
    let mut workspace = Workspace::<MockTarget>::new();
    let opened = workspace.folders_changed(vec![announced("file:///w/a"), announced("mailto:x@y"), announced("file:///w/b")], vec![]);
    assert_eq!(opened, vec!["/w/a".to_string(), "/w/b".to_string()]);
    assert_eq!(workspace.len(), 2);

    let opened = workspace.folders_changed(vec![announced("file:///w/c")], vec![announced("file:///w/a")]);
    assert_eq!(opened, vec!["/w/c".to_string()]);
    assert_eq!(workspace.len(), 2);
    assert_eq!(workspace.folder_mut(0).root(), "/w/b");
    assert_eq!(workspace.folder_mut(1).root(), "/w/c");
}

#[test]
fn a_change_is_routed_to_the_folders_it_lies_in() {
    let mut workspace = Workspace::<MockTarget>::new();
    workspace.folders_changed(vec![announced("file:///w/a"), announced("file:///w"), announced("file:///x")], vec![]);

    assert_eq!(workspace.routes("/w/a/pom.xml"), vec![0, 1]);
    assert_eq!(workspace.routes("/w/ab/pom.xml"), vec![1]);
    assert_eq!(workspace.routes("/y"), Vec::<usize>::new());
    assert_eq!(workspace.changed("file:///w/a/pom.xml"), Some(("/w/a/pom.xml".to_string(), vec![0, 1])));
    assert_eq!(workspace.changed("https://example.com/"), None);
    assert_eq!(workspace.code_lens("file:///w/a/pom.xml"), vec![]);
    assert_eq!(workspace.code_action("file:///w/a/pom.xml", &somewhere()), vec![]);
}

#[test]
fn notes_become_notifications() {
    assert_eq!(
        operation_message("t1", ProgressNote::Start { title: "Scanning dependencies".to_string(), total: 3 }),
        OperationMessage::Start(StartOperationParameters { token: "t1".to_string(), title: "Scanning dependencies".to_string(), total: 3 })
    );
    assert_eq!(
        operation_message("t1", ProgressNote::Update { message: Some("pkg:a".to_string()), increment: Some(1) }),
        OperationMessage::Update(UpdateOperationParameters { token: "t1".to_string(), message: Some("pkg:a".to_string()), increment: Some(1) })
    );
    assert_eq!(FinishOperationParameters { token: "t".to_string() }.token, "t");
    assert_eq!(UpdatedDependencies::METHOD, "enforcer/updatedDependencies");
    assert_eq!(StartOperation::METHOD, "enforcer/startOperation");
    assert_eq!(UpdateOperation::METHOD, "enforcer/updateOperation");
    assert_eq!(FinishOperation::METHOD, "enforcer/finishOperation");
}

#[test]
fn the_listener_that_does_not_listen_takes_every_note() {
    let follower = report(
        &NoProgress,
        None,
        vec![
            ProgressNote::Update { message: None, increment: Some(1) },
            ProgressNote::Start { title: "x".to_string(), total: 1 },
            ProgressNote::Update { message: None, increment: Some(1) },
        ],
    );
    assert!(follower.is_some());
    assert!(report(&NoProgress, None, vec![ProgressNote::Update { message: None, increment: None }]).is_none());
}

#[test]
fn publishing_for_the_enforcer_does_not_touch_the_source() {
    let mut publisher = DiagnosticPublisher::new(MockTarget::default());
    let mut file = File::new("/p/pom.xml".to_string());
    let place = Some(("file:///p/pom.xml".to_string(), somewhere()));
    file.build(&mut publisher, Ok(vec![checked("pkg:b", Outcome::Rejected(node("r", Severity::Error, "x", vec![])), place)]));
    publisher.target_mut().clear();
    publisher.publish_file(Category::Enforcer, vec![]);
    let calls = publisher.target_mut().drain();
    assert_eq!(calls.len(), 1);
    assert_eq!(calls[0].1.len(), 1);
}

#[test]
fn only_directories_above_the_changed_path_are_opened_and_each_once() {
    let folder = Folder::<MockTarget>::new("/w".to_string());
    let probes = vec![
        ("/w/other".to_string(), true),
        ("/w/one".to_string(), true),
        ("/w/one".to_string(), true),
        ("/w/one/sub".to_string(), false),
    ];
    assert_eq!(folder.discover("/w/one/sub/pom.xml", &probes), vec!["/w/one".to_string()]);
}

#[test]
fn a_change_keeps_what_was_found_in_the_manifests() {
    let (mut project, _) = Project::new("/p".to_string(), MockTarget::default(), None, true);
    let place = Some(("file:///p/pom.xml".to_string(), somewhere()));
    project.built(
        "/p/pom.xml",
        Ok(vec![checked("pkg:b", Outcome::Rejected(node("r", Severity::Error, "x", vec![])), place)]),
    );
    project.changed("/p/src/Main.java");
    project.changed("/p/sub/pom.xml");
    project.changed("/p/.enforcer.yaml");
    assert_eq!(project.code_lens("/p/pom.xml").len(), 1);
    assert_eq!(project.code_lens("/p/sub/pom.xml"), vec![]);
}
