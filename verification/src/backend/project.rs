//! A project: a directory with a marker file, its enforcer and the manifests in it.

use crate::backend::file::{checked_purls, is_failure_report, offer_all, shown, tell_of_all, Checked, CodeLens,
    Command, Error, File};
use crate::protocol::Report;
use crate::backend::notification::UpdatedDependenciesParameters;
use crate::backend::publisher::{
    bucketed, distinct, file_entries, incoming_of, notices, published, singles_of, Category, DiagnosticPublisher,
    LocationState, Target,
};
use crate::config::{Config, FILE_NAME_YAML};
use crate::enforcer::runner::{begun, Evaluation, Turn};
use crate::enforcer::seedwing::{configured, is_diagnosis, Enforcer, EnforcerState};
use crate::highlight::Range;
use crate::utils::location::file_url_of;
use crate::utils::paths::{ends_with, extension, extension_of, is_named, join, joined, parent_of};
use crate::utils::text::same_text;
use vstd::prelude::*;

verus! {

/// The file name of the manifests that a project tracks.
pub const MANIFEST_FILE: &'static str = "pom.xml";

/// The extension of policy sources.
pub const POLICY_EXTENSION: &'static str = "dog";

/// What a changed path means to a project.
#[derive(Copy, Clone, Debug, PartialEq, Eq, Structural)]
pub enum Change {
    /// A manifest that the project tracks.
    Known,
    /// A manifest that the project does not track yet.
    Manifest,
    /// The marker file.
    Configuration,
    /// A policy source.
    Policy,
    /// Nothing that the project cares about.
    Unrelated,
}

/// Something to do for a project, as plain values.
pub enum Job {
    Reconfigure,
    Build(Seq<char>),
}

/// Something to do for a project that needs the world outside.
#[derive(Debug, PartialEq, Eq)]
pub enum Task {
    /// Load the marker file anew, try the policy, and report what is wrong with either.
    Reconfigure,
    /// Gather the dependencies of this manifest, check them, and report what was found.
    Build(String),
}

impl View for Task {
    type V = Job;

    open spec fn view(&self) -> Job {
        match self {
            Task::Reconfigure => Job::Reconfigure,
            Task::Build(path) => Job::Build(path@),
        }
    }
}

/// What a list of tasks looks like to a reader.
pub open spec fn jobs_of(tasks: Seq<Task>) -> Seq<Job> {
    Seq::new(tasks.len(), |i: int| tasks[i]@)
}

/// What a changed path means to a project that tracks the manifests `tracked`.
pub open spec fn classified(known: Seq<Seq<char>>, path: Seq<char>) -> Change {
    if known.contains(path) {
        Change::Known
    } else if is_named(path, MANIFEST_FILE@) {
        Change::Manifest
    } else if is_named(path, FILE_NAME_YAML@) {
        Change::Configuration
    } else if extension_of(path) == Some(POLICY_EXTENSION@) {
        Change::Policy
    } else {
        Change::Unrelated
    }
}

/// One build for each manifest, in order.
pub open spec fn builds(known: Seq<Seq<char>>) -> Seq<Job> {
    Seq::new(known.len(), |i: int| Job::Build(known[i]))
}

/// What is to be done after `path` changed: a changed manifest is built, a new manifest is
/// built as well, a changed marker file or policy source means to reconfigure and then to
/// build every tracked manifest, and anything else means nothing.
pub open spec fn planned(known: Seq<Seq<char>>, path: Seq<char>) -> Seq<Job> {
    match classified(known, path) {
        Change::Known => seq![Job::Build(path)],
        Change::Manifest => seq![Job::Build(path)],
        Change::Configuration => seq![Job::Reconfigure] + builds(known),
        Change::Policy => seq![Job::Reconfigure] + builds(known),
        Change::Unrelated => Seq::empty(),
    }
}

/// The manifests that are tracked after `path` changed: a new manifest is tracked from then on.
pub open spec fn watched_after(known: Seq<Seq<char>>, path: Seq<char>) -> Seq<Seq<char>> {
    match classified(known, path) {
        Change::Manifest => known.push(path),
        _ => known,
    }
}

/// Whether `after` are the manifests of a project once `path` changed, `before` being those
/// of before: a manifest that is new joins at the end, not yet checked, and in every other
/// case the manifests stay as they are.
pub open spec fn manifests_after(before: Seq<File>, after: Seq<File>, path: Seq<char>) -> bool {
    match classified(paths_of(before), path) {
        Change::Manifest => {
            &&& after.len() == before.len() + 1
            &&& after.drop_last() == before
            &&& after.last().location() == path
            &&& after.last().declared().len() == 0
            &&& after.last().findings().len() == 0
        },
        _ => after == before,
    }
}

/// A project: the directory, the enforcer for it, what is published for it, and the
/// manifests whose dependencies are checked.
pub struct Project<T: Target> {
    root: String,
    enforcer: Enforcer,
    publisher: DiagnosticPublisher<T>,
    files: Vec<File>,
}

/// The paths of a list of manifests.
pub open spec fn paths_of(files: Seq<File>) -> Seq<Seq<char>> {
    Seq::new(files.len(), |i: int| files[i].location())
}

impl<T: Target> Project<T> {
    /// The directory of the project.
    pub closed spec fn location(&self) -> Seq<char> {
        self.root@
    }

    /// What the enforcer of the project knows.
    pub closed spec fn enforcing(&self) -> EnforcerState {
        self.enforcer@
    }

    /// What is published for the project.
    pub closed spec fn showing(&self) -> Seq<LocationState> {
        self.publisher@
    }

    /// The sink that the project publishes to.
    pub closed spec fn sink(&self) -> T {
        self.publisher.sink()
    }

    /// The manifests that the project tracks.
    pub closed spec fn manifests(&self) -> Seq<File> {
        self.files@
    }

    /// The paths of the manifests that the project tracks, in the order in which it came to
    /// track them.
    pub open spec fn watched(&self) -> Seq<Seq<char>> {
        paths_of(self.manifests())
    }

    /// The reports to offer for the document `path`, grouped by range: those of the
    /// manifest with that path, and none where the project does not follow it.
    pub open spec fn lens_groups(&self, path: Seq<char>) -> Seq<(Range, Seq<Report>)> {
        if self.watched().contains(path) {
            self.manifests()[self.watched().index_of(path)].lens_groups()
        } else {
            Seq::empty()
        }
    }

    /// Each manifest is tracked once, and each published location is known once.
    pub closed spec fn wf(&self) -> bool {
        &&& self.publisher.wf()
        &&& distinct(paths_of(self.files@))
        &&& self.enforcer@.root == self.root@
    }

    /// The path of the marker file of a directory.
    pub fn marker_path(root: &str) -> (path: String)
        ensures
            path@ == joined(root@, FILE_NAME_YAML@),
    {
        join(root, FILE_NAME_YAML)
    }

    /// The path of the manifest that a project in `root` tracks from the start, if the file
    /// exists.
    pub fn manifest_path(root: &str) -> (path: String)
        ensures
            path@ == joined(root@, MANIFEST_FILE@),
    {
        join(root, MANIFEST_FILE)
    }

    /// A project in `root` that publishes to `target`.
    ///
    /// `loaded` is what an attempt to load the marker file gave, and `manifest` says whether
    /// the directory holds a manifest: that manifest is tracked from the start. What is to
    /// be done next is to reconfigure, and to build the manifest where there is one.
    pub fn new(root: String, target: T, loaded: Option<Result<Config, String>>, manifest: bool) -> (created: (
        Self,
        Vec<Task>,
    ))
        ensures
            created.0.wf(),
            created.0.location() == root@,
            created.0.enforcing() == configured(
                EnforcerState { root: root@, config: None, failure: None, cache: Map::empty() },
                loaded,
            ),
            created.0.showing() == Seq::<LocationState>::empty(),
            created.0.sink() == target,
            created.0.watched() == (if manifest {
                seq![joined(root@, MANIFEST_FILE@)]
            } else {
                Seq::empty()
            }),
            jobs_of(created.1@) == seq![Job::Reconfigure] + builds(created.0.watched()),
    {
        let enforcer = Enforcer::new(root.clone(), loaded);
        let publisher = DiagnosticPublisher::new(target);
        let mut files: Vec<File> = Vec::new();
        let mut tasks: Vec<Task> = Vec::new();
        tasks.push(Task::Reconfigure);
        if manifest {
            let path = join(root.as_str(), MANIFEST_FILE);
            tasks.push(Task::Build(path.clone()));
            files.push(File::new(path));
        }
        let project = Project { root, enforcer, publisher, files };
        assert(project.watched() =~= (if manifest {
            seq![joined(root@, MANIFEST_FILE@)]
        } else {
            Seq::empty()
        }));
        assert(jobs_of(tasks@) =~= seq![Job::Reconfigure] + builds(project.watched()));
        (project, tasks)
    }

    /// The directory of the project.
    pub fn root(&self) -> (root: &str)
        ensures
            root@ == self.location(),
    {
        self.root.as_str()
    }

    /// The enforcer of the project, to consult.
    pub fn enforcer(&self) -> (enforcer: &Enforcer)
        ensures
            enforcer@ == self.enforcing(),
    {
        &self.enforcer
    }

    /// The cache of the project's enforcer, to fill during an evaluation. The rest of the
    /// project stays as it is.
    pub fn cache_mut(&mut self) -> (cache: &mut crate::enforcer::cache::DefaultCache)
        requires
            old(self).wf(),
        ensures
            crate::enforcer::cache::Cache::entries(cache) == old(self).enforcing().cache,
            final(self).wf(),
            final(self).location() == old(self).location(),
            final(self).enforcing() == (EnforcerState {
                cache: crate::enforcer::cache::Cache::entries(final(cache)),
                ..old(self).enforcing()
            }),
            final(self).showing() == old(self).showing(),
            final(self).sink() == old(self).sink(),
            final(self).manifests() == old(self).manifests(),
    {
        self.enforcer.cache_mut()
    }

    /// The sink that the project publishes to, to work on.
    pub fn target_mut(&mut self) -> (target: &mut T)
        requires
            old(self).wf(),
        ensures
            *target == old(self).sink(),
            final(self).sink() == *final(target),
            final(self).wf(),
            final(self).location() == old(self).location(),
            final(self).enforcing() == old(self).enforcing(),
            final(self).showing() == old(self).showing(),
            final(self).manifests() == old(self).manifests(),
    {
        self.publisher.target_mut()
    }

    /// The index of the manifest with this path among the tracked manifests.
    fn find(&self, path: &str) -> (found: Option<usize>)
        ensures
            match found {
                Some(at) => at < self.files.len() && self.files[at as int].location() == path@,
                None => !paths_of(self.files@).contains(path@),
            },
    {
        let mut i: usize = 0;
        while i < self.files.len()
            invariant
                i <= self.files.len(),
                forall|k: int| 0 <= k < i ==> paths_of(self.files@)[k] != path@,
            decreases self.files.len() - i,
        {
            if same_text(self.files[i].path(), path) {
                return Some(i);
            }
            assert(paths_of(self.files@)[i as int] == self.files[i as int].location());
            i += 1;
        }
        None
    }

    /// What a changed path means to this project.
    pub fn classify(&self, path: &str) -> (change: Change)
        ensures
            change == classified(self.watched(), path@),
    {
        let found = self.find(path);
        if found.is_some() {
            assert(paths_of(self.files@)[found.unwrap() as int] == path@);
            Change::Known
        } else if ends_with(path, MANIFEST_FILE) {
            Change::Manifest
        } else if ends_with(path, FILE_NAME_YAML) {
            Change::Configuration
        } else {
            match extension(path) {
                Some(found) => if same_text(found.as_str(), POLICY_EXTENSION) {
                    Change::Policy
                } else {
                    Change::Unrelated
                },
                None => Change::Unrelated,
            }
        }
    }

    /// Takes note that `path` changed, and says what is to be done about it.
    ///
    /// A manifest that is not yet among the manifests of the project is from then on, as one
    /// that has not been checked. Nothing else of the project changes before the tasks are
    /// carried out: the manifests that it follows keep what was found in them.
    pub fn changed(&mut self, path: &str) -> (tasks: Vec<Task>)
        requires
            old(self).wf(),
        ensures
            final(self).wf(),
            final(self).location() == old(self).location(),
            final(self).enforcing() == old(self).enforcing(),
            final(self).showing() == old(self).showing(),
            final(self).sink() == old(self).sink(),
            final(self).watched() == watched_after(old(self).watched(), path@),
            manifests_after(old(self).manifests(), final(self).manifests(), path@),
            jobs_of(tasks@) == planned(old(self).watched(), path@),
    {
        let ghost known = self.watched();
        let ghost held = self.files@;
        let mut tasks: Vec<Task> = Vec::new();
        match self.classify(path) {
            Change::Known => {
                tasks.push(Task::Build(String::from_str(path)));
                assert(jobs_of(tasks@) =~= seq![Job::Build(path@)]);
            },
            Change::Manifest => {
                self.files.push(File::new(String::from_str(path)));
                tasks.push(Task::Build(String::from_str(path)));
                assert(jobs_of(tasks@) =~= seq![Job::Build(path@)]);
                assert(self.watched() =~= known.push(path@));
                assert(self.files@.drop_last() =~= held);
                assert forall|a: int, b: int| 0 <= a < b < self.watched().len() implies self.watched()[a]
                    != self.watched()[b] by {
                    if b < known.len() {
                        assert(known[a] != known[b]);
                    } else {
                        assert(known.contains(known[a]));
                    }
                }
            },
            Change::Configuration | Change::Policy => {
                tasks.push(Task::Reconfigure);
                let mut i: usize = 0;
                while i < self.files.len()
                    invariant
                        i <= self.files.len(),
                        tasks.len() == i + 1,
                        known == paths_of(self.files@),
                        tasks[0]@ == Job::Reconfigure,
                        forall|k: int| 1 <= k <= i ==> (#[trigger] tasks[k])@
                            == Job::Build(self.files[k - 1].location()),
                    decreases self.files.len() - i,
                {
                    tasks.push(Task::Build(String::from_str(self.files[i].path())));
                    i += 1;
                }
                assert(jobs_of(tasks@) =~= seq![Job::Reconfigure] + builds(known));
            },
            Change::Unrelated => {
                assert(jobs_of(tasks@) =~= Seq::empty());
            },
        }
        tasks
    }

    /// Takes what a new attempt to load the marker file gave.
    pub fn configure(&mut self, loaded: Option<Result<Config, String>>)
        requires
            old(self).wf(),
        ensures
            final(self).wf(),
            final(self).location() == old(self).location(),
            final(self).enforcing() == configured(old(self).enforcing(), loaded),
            final(self).showing() == old(self).showing(),
            final(self).sink() == old(self).sink(),
            final(self).manifests() == old(self).manifests(),
    {
        self.enforcer.configure(loaded);
    }

    /// Starts the trial that shows whether the policy can be used: an evaluation of no
    /// dependencies.
    pub fn trial(&self) -> (started: (Evaluation, Turn))
        ensures
            started.0.wf(),
            started.0.pending().len() == 0,
            begun(
                self.enforcing().config,
                self.enforcing().failure,
                self.enforcing().cache,
                Seq::empty(),
                started.0,
                started.1,
            ),
    {
        self.enforcer.eval(Vec::new())
    }

    /// Publishes what is wrong with the configuration, given how the trial ended and the
    /// text of the policy source that a failure points to.
    pub fn report(&mut self, trial: Result<(), crate::enforcer::error::Error>, content: Option<&str>)
        requires
            old(self).wf(),
        ensures
            final(self).wf(),
            final(self).location() == old(self).location(),
            final(self).enforcing() == old(self).enforcing(),
            final(self).manifests() == old(self).manifests(),
            exists|found: Seq<(String, Vec<crate::diagnostic::Diagnostic>)>|
                {
                    &&& is_diagnosis(
                        old(self).enforcing(),
                        trial,
                        match content {
                            Some(text) => Some(text@),
                            None => None,
                        },
                        found,
                    )
                    &&& final(self).showing() == #[trigger] published(
                        old(self).showing(),
                        Category::Enforcer,
                        file_entries(incoming_of(found)),
                    )
                },
            final(self).sink().received() == old(self).sink().received() + notices(final(self).showing()),
    {
        let found = self.enforcer.diagnostics(trial, content);
        let ghost witness = found@;
        self.publisher.publish_file(Category::Enforcer, found);
        assert(self.showing() == published(old(self).showing(), Category::Enforcer,
            file_entries(incoming_of(witness))));
    }

    /// Takes what became of a check of the manifest `path`, and publishes the diagnostics.
    /// Nothing happens for a path that is not among the manifests of the project.
    pub fn built(&mut self, path: &str, results: Result<Vec<Checked>,
        Error>) -> (update: Option<UpdatedDependenciesParameters>)
        requires
            old(self).wf(),
        ensures
            final(self).wf(),
            final(self).location() == old(self).location(),
            final(self).enforcing() == old(self).enforcing(),
            final(self).watched() == old(self).watched(),
            !old(self).watched().contains(path@) ==> update.is_none() && final(self).showing() == old(self).showing()
                && final(self).sink() == old(self).sink() && final(self).manifests() == old(self).manifests(),
            old(self).watched().contains(path@) ==> {
                let at = old(self).watched().index_of(path@);
                &&& forall|k: int|
                    0 <= k < old(self).manifests().len() && k != at ==> final(self).manifests()[k]
                        == old(self).manifests()[k]
                &&& match file_url_of(path@) {
                    None => update.is_none() && final(self).showing() == old(self).showing()
                        && final(self).sink() == old(
                        self,
                    ).sink() && final(self).manifests()[at] == old(self).manifests()[at],
                    Some(root) => {
                        let file = final(self).manifests()[at];
                        let before = old(self).manifests()[at];
                        &&& update matches Some(told) && told.root@ == root && crate::enforcer::dependency::purls(
                            told.dependencies@,
                        ) == crate::enforcer::dependency::purls(file.declared())
                        &&& match (parent_of(path@), results) {
                            (None, _) => file.declared() == before.declared() && file.findings() == before.findings(),
                            (Some(_), Ok(list)) => crate::enforcer::dependency::purls(file.declared())
                                == checked_purls(list@)
                                && tell_of_all(file.findings(), shown(list@)),
                            (Some(_), Err(error)) => file.declared().len() == 0 && is_failure_report(
                                file.findings(),
                                root,
                                error,
                            ),
                        }
                        &&& final(self).showing() == published(
                            old(self).showing(),
                            Category::Source,
                            bucketed(singles_of(file.findings())),
                        )
                        &&& final(self).sink().received() == old(self).sink().received() + notices(final(self).showing())
                    },
                }
            },
    {
        let ghost known = self.watched();
        let ghost files = self.files@;
        match self.find(path) {
            Some(at) => {
                proof {
                    assert(known[at as int] == path@);
                    assert(known.contains(path@));
                    let first = known.index_of(path@);
                    lemma_one_place(known, first, at as int);
                }
                let update = self.files[at].build(&mut self.publisher, results);
                assert(paths_of(self.files@) =~= known);
                update
            },
            None => None,
        }
    }

    /// The commands to offer for the manifest `path`: none where the project does not
    /// track it.
    pub fn code_lens(&self, path: &str) -> (lenses: Vec<CodeLens>)
        requires
            self.wf(),
        ensures
            offer_all(lenses@, self.lens_groups(path@)),
    {
        let ghost known = self.watched();
        match self.find(path) {
            Some(at) => {
                proof {
                    assert(known[at as int] == path@);
                    assert(known.contains(path@));
                    let first = known.index_of(path@);
                    lemma_one_place(known, first, at as int);
                }
                self.files[at].code_lens()
            },
            None => Vec::new(),
        }
    }

    /// The actions to offer for a range of the manifest `path`: none.
    pub fn code_action(&self, _path: &str, _range: &Range) -> (actions: Vec<Command>)
        ensures
            actions.len() == 0,
    {
        Vec::new()
    }
}

/// In a list without repetitions, two places that hold the same path are one place.
proof fn lemma_one_place(known: Seq<Seq<char>>, first: int, second: int)
    requires
        0 <= first < known.len(),
        0 <= second < known.len(),
        known[first] == known[second],
    ensures
        distinct(known) ==> first == second,
{
    if distinct(known) && first < second {
        assert(known[first] != known[second]);
    }
    if distinct(known) && second < first {
        assert(known[second] != known[first]);
    }
}

} // verus!
