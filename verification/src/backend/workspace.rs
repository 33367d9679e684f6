//! Folders of a workspace and the projects found in them.

use crate::backend::file::{lemma_offer_all_joined, offer_all, CodeLens, Command};
use crate::protocol::Report;
use crate::backend::project::{jobs_of, manifests_after, planned, watched_after, Job, Project, Task};
use crate::backend::publisher::{distinct, Target};
use crate::highlight::Range;
use crate::utils::location::{file_path, file_path_of};
use crate::utils::paths::{is_under, parent, parent_of, starts_with};
use crate::utils::text::same_text;
use vstd::prelude::*;

verus! {

/// The path of the local file that a URL stands for, if it stands for one.
pub fn as_path(url: &str) -> (path: Option<String>)
    ensures
        match path {
            Some(found) => file_path_of(url@) == Some(found@),
            None => file_path_of(url@).is_none(),
        },
{
    file_path(url)
}

/// What a probe of the file system said of `root`: whether the directory holds a marker
/// file. Nothing where the directory was not probed.
pub open spec fn probed(marked: Seq<(String, bool)>, root: Seq<char>) -> Option<bool>
    decreases marked.len(),
{
    if marked.len() == 0 {
        None
    } else if marked[0].0@ == root {
        Some(marked[0].1)
    } else {
        probed(marked.skip(1), root)
    }
}

/// Whether a project in `root` is to be dropped after `path` changed: the path lies in the
/// project, and the probe made for this event found no marker file in the project's
/// directory.
pub open spec fn is_gone(root: Seq<char>, path: Seq<char>, marked: Seq<(String, bool)>) -> bool {
    is_under(path, root) && probed(marked, root) == Some(false)
}

/// The projects that stay after `path` changed, in order.
pub open spec fn kept<T: Target>(projects: Seq<Project<T>>, path: Seq<char>, marked: Seq<(String,
    bool)>) -> Seq<Project<T>>
    decreases projects.len(),
{
    if projects.len() == 0 {
        Seq::empty()
    } else if is_gone(projects.last().location(), path, marked) {
        kept(projects.drop_last(), path, marked)
    } else {
        kept(projects.drop_last(), path, marked).push(projects.last())
    }
}

/// What is to be done after `path` changed: for each project that stays and in which the
/// path lies, in order, the directory of the project and the project's own plan.
pub open spec fn forwarded<T: Target>(projects: Seq<Project<T>>, path: Seq<char>, marked: Seq<(String,
    bool)>) -> Seq<(Seq<char>, Seq<Job>)>
    decreases projects.len(),
{
    if projects.len() == 0 {
        Seq::empty()
    } else {
        let before = forwarded(projects.drop_last(), path, marked);
        let last = projects.last();
        if is_under(path, last.location()) && !is_gone(last.location(), path, marked) {
            before.push((last.location(), planned(last.watched(), path)))
        } else {
            before
        }
    }
}

/// Whether `after` is `before` once it has taken note that `path` changed: a project in
/// which the path lies follows a manifest more where the path is a new one, and nothing
/// else differs; what was found in the manifests stays.
pub open spec fn carried<T: Target>(before: Project<T>, after: Project<T>, path: Seq<char>) -> bool {
    &&& after.wf()
    &&& after.location() == before.location()
    &&& after.enforcing() == before.enforcing()
    &&& after.showing() == before.showing()
    &&& after.sink() == before.sink()
    &&& after.watched() == (if is_under(path, before.location()) {
        watched_after(before.watched(), path)
    } else {
        before.watched()
    })
    &&& if is_under(path, before.location()) {
        manifests_after(before.manifests(), after.manifests(), path)
    } else {
        after.manifests() == before.manifests()
    }
}

/// The reports to offer for the document `path`, grouped by range: those of each project in
/// which the path lies, in the order of the projects.
pub open spec fn project_groups<T: Target>(projects: Seq<Project<T>>, path: Seq<char>) -> Seq<(Range, Seq<Report>)>
    decreases projects.len(),
{
    if projects.len() == 0 {
        Seq::empty()
    } else {
        let before = project_groups(projects.drop_last(), path);
        if is_under(path, projects.last().location()) {
            before + projects.last().lens_groups(path)
        } else {
            before
        }
    }
}

/// What a change means for a folder.
#[derive(Debug, PartialEq, Eq)]
pub struct Changed {
    /// For each project that takes note of the change, its directory and what is to be done
    /// for it.
    pub directives: Vec<(String, Vec<Task>)>,
    /// The directories that become projects with this event.
    pub opened: Vec<String>,
}

/// What a list of directives looks like to a reader.
pub open spec fn directives_of(list: Seq<(String, Vec<Task>)>) -> Seq<(Seq<char>, Seq<Job>)> {
    Seq::new(list.len(), |i: int| (list[i].0@, jobs_of(list[i].1@)))
}

/// The directories of a list of projects.
pub open spec fn roots_of<T: Target>(projects: Seq<Project<T>>) -> Seq<Seq<char>> {
    Seq::new(projects.len(), |i: int| projects[i].location())
}

/// Whether `text` is among `list`.
fn holds(list: &Vec<String>, text: &str) -> (found: bool)
    ensures
        found == texts_of(list@).contains(text@),
{
    let mut i: usize = 0;
    while i < list.len()
        invariant
            i <= list.len(),
            forall|k: int| 0 <= k < i ==> texts_of(list@)[k] != text@,
        decreases list.len() - i,
    {
        if same_text(list[i].as_str(), text) {
            assert(texts_of(list@)[i as int] == text@);
            return true;
        }
        i += 1;
    }
    false
}

/// What a probe said of `root`.
fn lookup(marked: &Vec<(String, bool)>, root: &str) -> (found: Option<bool>)
    ensures
        found == probed(marked@, root@),
{
    let mut i: usize = 0;
    assert(marked@.skip(0) =~= marked@);
    while i < marked.len()
        invariant
            i <= marked.len(),
            probed(marked@, root@) == probed(marked@.skip(i as int), root@),
        decreases marked.len() - i,
    {
        assert(marked@.skip(i as int)[0] == marked@[i as int]);
        assert(marked@.skip(i as int).skip(1) =~= marked@.skip(i + 1));
        if same_text(marked[i].0.as_str(), root) {
            return Some(marked[i].1);
        }
        i += 1;
    }
    assert(marked@.skip(marked.len() as int) =~= Seq::empty());
    None
}

/// A folder of the workspace, with the projects found in it.
pub struct Folder<T: Target> {
    root: String,
    projects: Vec<Project<T>>,
}

impl<T: Target> Folder<T> {
    /// The directory of the folder.
    pub closed spec fn location(&self) -> Seq<char> {
        self.root@
    }

    /// The projects of the folder, in the order in which they were found.
    pub closed spec fn projects(&self) -> Seq<Project<T>> {
        self.projects@
    }

    /// Every project is sound, and no directory is a project twice.
    pub open spec fn wf(&self) -> bool {
        &&& forall|i: int| 0 <= i < self.projects().len() ==> (#[trigger] self.projects()[i]).wf()
        &&& distinct(roots_of(self.projects()))
    }

    /// A folder in which no project has been found yet.
    pub fn new(root: String) -> (folder: Self)
        ensures
            folder.wf(),
            folder.location() == root@,
            folder.projects().len() == 0,
    {
        Folder { root, projects: Vec::new() }
    }

    /// The directory of the folder.
    pub fn root(&self) -> (root: &str)
        ensures
            root@ == self.location(),
    {
        self.root.as_str()
    }

    /// The number of projects in the folder.
    pub fn len(&self) -> (count: usize)
        ensures
            count == self.projects().len(),
    {
        self.projects.len()
    }

    /// The index of the project in `root`.
    pub fn position(&self, root: &str) -> (found: Option<usize>)
        ensures
            match found {
                Some(at) => at < self.projects().len() && self.projects()[at as int].location() == root@,
                None => !roots_of(self.projects()).contains(root@),
            },
    {
        let mut i: usize = 0;
        while i < self.projects.len()
            invariant
                i <= self.projects.len(),
                forall|k: int| 0 <= k < i ==> roots_of(self.projects@)[k] != root@,
            decreases self.projects.len() - i,
        {
            if same_text(self.projects[i].root(), root) {
                return Some(i);
            }
            assert(roots_of(self.projects@)[i as int] == self.projects@[i as int].location());
            i += 1;
        }
        None
    }

    /// Takes note that `path` changed. `marked` says, for the directories probed at the
    /// time of this event, whether each holds a marker file.
    ///
    /// Every project in which the path lies is looked at: where the probe found its marker
    /// file gone, the project is dropped; else the project takes note of the change. The
    /// result names, for each such project that stays, what is to be done for it. It also
    /// names the directories that become projects with this event: those in which the
    /// path lies, that lie in this folder, that were no project and that the probe found to
    /// hold a marker file. They are to be opened and taken into the folder.
    pub fn changed(&mut self, path: &str, marked: &Vec<(String, bool)>) -> (changes: Changed)
        requires
            old(self).wf(),
        ensures
            final(self).wf(),
            final(self).location() == old(self).location(),
            final(self).projects().len() == kept(old(self).projects(), path@, marked@).len(),
            forall|i: int|
                0 <= i < final(self).projects().len() ==> carried(
                    kept(old(self).projects(), path@, marked@)[i],
                    #[trigger] final(self).projects()[i],
                    path@,
                ),
            directives_of(changes.directives@) == forwarded(old(self).projects(), path@, marked@),
            texts_of(changes.opened@) == discovered(
                probe_dirs(marked@),
                marked@,
                path@,
                old(self).location(),
                roots_of(old(self).projects()),
            ),
    {
        let opened = self.discover(path, marked);
        let directives = self.forward(path, marked);
        Changed { directives, opened }
    }

    /// Hands the change of `path` on to the projects in which the path lies, and drops those
    /// whose marker file the probe found gone.
    fn forward(&mut self, path: &str, marked: &Vec<(String, bool)>) -> (directives: Vec<(String, Vec<Task>)>)
        requires
            old(self).wf(),
        ensures
            final(self).wf(),
            final(self).location() == old(self).location(),
            final(self).projects().len() == kept(old(self).projects(), path@, marked@).len(),
            forall|i: int|
                0 <= i < final(self).projects().len() ==> carried(
                    kept(old(self).projects(), path@, marked@)[i],
                    #[trigger] final(self).projects()[i],
                    path@,
                ),
            directives_of(directives@) == forwarded(old(self).projects(), path@, marked@),
    {
        let ghost all = self.projects@;
        let mut staying: Vec<Project<T>> = Vec::new();
        let mut directives: Vec<(String, Vec<Task>)> = Vec::new();
        let mut seen: usize = 0;
        assert(all.take(0) =~= Seq::empty());
        assert(directives_of(directives@) =~= Seq::empty());
        assert(all.len() == self.projects.len());
        while self.projects.len() > 0
            invariant
                self.root == old(self).root,
                all == old(self).projects@,
                seen + self.projects.len() == all.len(),
                all.len() <= usize::MAX,
                self.projects@ == all.skip(seen as int),
                forall|i: int| 0 <= i < all.len() ==> (#[trigger] all[i]).wf(),
                distinct(roots_of(all)),
                staying.len() == kept(all.take(seen as int), path@, marked@).len(),
                forall|i: int|
                    0 <= i < staying.len() ==> carried(kept(all.take(seen as int), path@, marked@)[i],
                        #[trigger] staying[i], path@),
                directives_of(directives@) == forwarded(all.take(seen as int), path@, marked@),
            decreases self.projects.len(),
        {
            let ghost before = kept(all.take(seen as int), path@, marked@);
            let ghost told = directives_of(directives@);
            let mut project = self.projects.remove(0);
            assert(project == all[seen as int]);
            assert(self.projects@ =~= all.skip(seen + 1));
            assert(all.take(seen + 1).drop_last() =~= all.take(seen as int));
            assert(all.take(seen + 1).last() == all[seen as int]);
            let ghost entering = project;
            if starts_with(path, project.root()) {
                match lookup(marked, project.root()) {
                    Some(false) => {},
                    _ => {
                        let tasks = project.changed(path);
                        directives.push((String::from_str(project.root()), tasks));
                        assert(directives_of(directives@) =~= told.push((entering.location(),
                            planned(entering.watched(), path@))));
                        staying.push(project);
                    },
                }
            } else {
                staying.push(project);
            }
            seen += 1;
        }
        assert(all.take(seen as int) =~= all);
        proof {
            let after = kept(all, path@, marked@);
            assert forall|a: int, b: int| 0 <= a < b < staying.len() implies roots_of(staying@)[a]
                != roots_of(staying@)[b] by {
                lemma_kept_in_order(all, path@, marked@, a, b);
            }
        }
        self.projects = staying;
        directives
    }

    /// The directories to probe for a marker file when `path` changed: the directories of
    /// the projects in which the path lies, then the path and the directories above it.
    pub fn watch_list(&self, path: &str) -> (dirs: Vec<String>)
        ensures
            exists|count: int|
                0 <= count <= dirs.len() && texts_of(dirs@).skip(count) == lineage(path@) && forall|i: int|
                    0 <= i < self.projects().len() && is_under(path@, self.projects()[i].location()) ==> texts_of(
                        dirs@,
                    ).take(count).contains(#[trigger] self.projects()[i].location()),
    {
        let mut dirs: Vec<String> = Vec::new();
        let mut i: usize = 0;
        while i < self.projects.len()
            invariant
                i <= self.projects.len(),
                forall|k: int|
                    0 <= k < i && is_under(path@, self.projects@[k].location()) ==> texts_of(dirs@).contains(
                        #[trigger] self.projects@[k].location(),
                    ),
            decreases self.projects.len() - i,
        {
            let ghost before = texts_of(dirs@);
            if starts_with(path, self.projects[i].root()) {
                dirs.push(String::from_str(self.projects[i].root()));
                assert(texts_of(dirs@)[dirs.len() - 1] == self.projects@[i as int].location());
            }
            assert forall|k: int| 0 <= k < i && is_under(path@, self.projects@[k].location())
                implies texts_of(dirs@).contains(
                #[trigger] self.projects@[k].location(),
            ) by {
                let j = choose|j: int| 0 <= j < before.len() && before[j] == self.projects@[k].location();
                assert(texts_of(dirs@)[j] == before[j]);
            }
            i += 1;
        }
        let ghost count = dirs.len() as int;
        let ghost roots = texts_of(dirs@);
        let mut line = ancestry(path);
        let ghost above = texts_of(line@);
        dirs.append(&mut line);
        assert(texts_of(dirs@).skip(count) =~= above);
        assert(texts_of(dirs@).take(count) =~= roots);
        dirs
    }

    /// The directories that become projects because `path` changed: of the directories
    /// that were probed, those in which the path lies, that lie in this folder, that are no
    /// project yet and that were found to hold a marker file.
    pub fn discover(&self, path: &str, marked: &Vec<(String, bool)>) -> (found: Vec<String>)
        ensures
            texts_of(found@) == discovered(
                probe_dirs(marked@),
                marked@,
                path@,
                self.location(),
                roots_of(self.projects()),
            ),
    {
        let ghost dirs = probe_dirs(marked@);
        let mut found: Vec<String> = Vec::new();
        let mut i: usize = 0;
        assert(dirs.take(0) =~= Seq::empty());
        assert(texts_of(found@) =~= Seq::empty());
        while i < marked.len()
            invariant
                i <= marked.len(),
                dirs == probe_dirs(marked@),
                texts_of(found@) == discovered(
                    dirs.take(i as int),
                    marked@,
                    path@,
                    self.location(),
                    roots_of(self.projects()),
                ),
            decreases marked.len() - i,
        {
            let ghost before = texts_of(found@);
            assert(dirs.take(i + 1).drop_last() =~= dirs.take(i as int));
            assert(dirs.take(i + 1).last() == marked@[i as int].0@);
            let dir = &marked[i].0;
            let slot = self.position(dir.as_str());
            let is_project = slot.is_some();
            proof {
                match slot {
                    Some(at) => {
                        assert(roots_of(self.projects())[at as int] == dir@);
                    },
                    None => {},
                }
            }
            if starts_with(path, dir.as_str()) && starts_with(dir.as_str(), self.root.as_str()) && !is_project
                && !holds(&found, dir.as_str()) {
                match lookup(marked, dir.as_str()) {
                    Some(true) => {
                        found.push(dir.clone());
                        assert(texts_of(found@) =~= before.push(dir@));
                    },
                    _ => {},
                }
            }
            i += 1;
        }
        assert(dirs.take(marked.len() as int) =~= dirs);
        found
    }

    /// What becomes of the directory `path` in a scan of the folder, given whether it holds
    /// a marker file: a project without its marker file is dropped, a directory with a
    /// marker file that is no project is to become one, and nothing else changes.
    pub fn eval(&mut self, path: &str, has_marker: bool) -> (scanned: Scanned)
        requires
            old(self).wf(),
        ensures
            final(self).wf(),
            final(self).location() == old(self).location(),
            scanned == (if roots_of(old(self).projects()).contains(path@) {
                if has_marker {
                    Scanned::Unchanged
                } else {
                    Scanned::Dropped
                }
            } else {
                if has_marker {
                    Scanned::Found
                } else {
                    Scanned::Unchanged
                }
            }),
            scanned != Scanned::Dropped ==> final(self).projects() == old(self).projects(),
            scanned == Scanned::Dropped ==> final(self).projects() == old(self).projects().remove(
                roots_of(old(self).projects()).index_of(path@),
            ),
    {
        match self.position(path) {
            Some(at) => {
                proof {
                    let roots = roots_of(self.projects@);
                    assert(roots[at as int] == path@);
                    assert(roots.contains(path@));
                    let first = roots.index_of(path@);
                    if first < at {
                        assert(roots[first] != roots[at as int]);
                    }
                    if at < first {
                        assert(roots[at as int] != roots[first]);
                    }
                }
                if has_marker {
                    Scanned::Unchanged
                } else {
                    let ghost before = self.projects@;
                    self.projects.remove(at);
                    assert forall|a: int, b: int| 0 <= a < b < self.projects@.len()
                        implies roots_of(self.projects@)[a] != roots_of(
                        self.projects@,
                    )[b] by {
                        let x = if a < at {
                            a
                        } else {
                            a + 1
                        };
                        let y = if b < at {
                            b
                        } else {
                            b + 1
                        };
                        assert(roots_of(before)[x] != roots_of(before)[y]);
                    }
                    Scanned::Dropped
                }
            },
            None => if has_marker {
                Scanned::Found
            } else {
                Scanned::Unchanged
            },
        }
    }

    /// Takes a project into the folder. A project that the folder holds for the same
    /// directory gives way to it.
    pub fn adopt(&mut self, project: Project<T>)
        requires
            old(self).wf(),
            project.wf(),
        ensures
            final(self).wf(),
            final(self).location() == old(self).location(),
            final(self).projects() == (if roots_of(old(self).projects()).contains(project.location()) {
                old(self).projects().update(roots_of(old(self).projects()).index_of(project.location()), project)
            } else {
                old(self).projects().push(project)
            }),
    {
        let ghost before = self.projects@;
        let ghost roots = roots_of(before);
        match self.position(project.root()) {
            Some(at) => {
                proof {
                    assert(roots[at as int] == project.location());
                    assert(roots.contains(project.location()));
                    let first = roots.index_of(project.location());
                    if first < at {
                        assert(roots[first] != roots[at as int]);
                    }
                    if at < first {
                        assert(roots[at as int] != roots[first]);
                    }
                }
                self.projects[at] = project;
                assert(roots_of(self.projects@) =~= roots);
            },
            None => {
                self.projects.push(project);
                assert forall|a: int, b: int| 0 <= a < b < self.projects@.len()
                    implies roots_of(self.projects@)[a] != roots_of(
                    self.projects@,
                )[b] by {
                    if b < before.len() {
                        assert(roots[a] != roots[b]);
                    } else {
                        assert(roots.contains(roots[a]));
                    }
                }
            },
        }
    }

    /// The project at `at`, to work on.
    pub fn project_mut(&mut self, at: usize) -> (project: &mut Project<T>)
        requires
            at < old(self).projects().len(),
        ensures
            *project == old(self).projects()[at as int],
            final(self).location() == old(self).location(),
            final(self).projects() == old(self).projects().update(at as int, *final(project)),
    {
        &mut self.projects[at]
    }

    /// The commands to offer for the document `path`: those of every project in which the
    /// path lies and that follows it as a manifest.
    pub fn code_lens(&self, path: &str) -> (lenses: Vec<CodeLens>)
        requires
            self.wf(),
        ensures
            offer_all(lenses@, project_groups(self.projects(), path@)),
    {
        let mut lenses: Vec<CodeLens> = Vec::new();
        let mut i: usize = 0;
        assert(self.projects@.take(0) =~= Seq::empty());
        while i < self.projects.len()
            invariant
                i <= self.projects.len(),
                self.wf(),
                offer_all(lenses@, project_groups(self.projects@.take(i as int), path@)),
            decreases self.projects.len() - i,
        {
            let ghost before = lenses@;
            let ghost groups = project_groups(self.projects@.take(i as int), path@);
            assert(self.projects@.take(i + 1).drop_last() =~= self.projects@.take(i as int));
            assert(self.projects@.take(i + 1).last() == self.projects@[i as int]);
            assert(self.projects()[i as int].wf());
            if starts_with(path, self.projects[i].root()) {
                let mut more = self.projects[i].code_lens(path);
                proof {
                    lemma_offer_all_joined(before, groups, more@, self.projects@[i as int].lens_groups(path@));
                }
                lenses.append(&mut more);
            }
            i += 1;
        }
        assert(self.projects@.take(self.projects.len() as int) =~= self.projects@);
        lenses
    }

    /// The actions to offer for a range of the document `path`: none.
    pub fn code_action(&self, _path: &str, _range: &Range) -> (actions: Vec<Command>)
        ensures
            actions.len() == 0,
    {
        Vec::new()
    }
}

/// A path and the directories above it, nearest first.
pub open spec fn lineage(path: Seq<char>) -> Seq<Seq<char>>
    decreases path.len(),
{
    match parent_of(path) {
        Some(up) => if up.len() < path.len() {
            seq![path] + lineage(up)
        } else {
            seq![path]
        },
        None => seq![path],
    }
}

/// The directories that were probed for this event, in order.
pub open spec fn probe_dirs(marked: Seq<(String, bool)>) -> Seq<Seq<char>> {
    Seq::new(marked.len(), |i: int| marked[i].0@)
}

/// The directories among `dirs` that become projects because `path` changed: those in
/// which the path lies, that lie in the folder themselves, that are no project yet, and
/// that the probe made for this event found to hold a marker file. Each is named once, in
/// the order of `dirs`.
pub open spec fn discovered(
    dirs: Seq<Seq<char>>,
    marked: Seq<(String, bool)>,
    path: Seq<char>,
    folder: Seq<char>,
    roots: Seq<Seq<char>>,
) -> Seq<Seq<char>>
    decreases dirs.len(),
{
    if dirs.len() == 0 {
        Seq::empty()
    } else {
        let before = discovered(dirs.drop_last(), marked, path, folder, roots);
        let dir = dirs.last();
        if is_opening(dir, marked, path, folder, roots) && !before.contains(dir) {
            before.push(dir)
        } else {
            before
        }
    }
}

/// Whether the directory `dir` is to become a project because `path` changed: the path
/// lies in it, it lies in the folder, it is no project yet, and the probe made for this
/// event found it to hold a marker file.
pub open spec fn is_opening(
    dir: Seq<char>,
    marked: Seq<(String, bool)>,
    path: Seq<char>,
    folder: Seq<char>,
    roots: Seq<Seq<char>>,
) -> bool {
    is_under(path, dir) && is_under(dir, folder) && !roots.contains(dir) && probed(marked, dir) == Some(true)
}

/// What a list of paths looks like to a reader.
pub open spec fn texts_of(paths: Seq<String>) -> Seq<Seq<char>> {
    Seq::new(paths.len(), |i: int| paths[i]@)
}

/// What becomes of a directory when the folder is scanned.
#[derive(Copy, Clone, Debug, PartialEq, Eq, Structural)]
pub enum Scanned {
    /// The directory holds a marker file and is no project yet: it is to become one.
    Found,
    /// The directory was a project and holds no marker file any more: it was dropped.
    Dropped,
    /// Nothing changes.
    Unchanged,
}

/// A project whose marker file is gone is dropped by the next change in it: it is not among
/// the projects that stay, and nothing is to be done for it.
pub proof fn lemma_unmarked_project_is_dropped<T: Target>(
    projects: Seq<Project<T>>,
    path: Seq<char>,
    marked: Seq<(String, bool)>,
    at: int,
)
    requires
        distinct(roots_of(projects)),
        0 <= at < projects.len(),
        is_gone(projects[at].location(), path, marked),
    ensures
        !roots_of(kept(projects, path, marked)).contains(projects[at].location()),
        forall|k: int|
            0 <= k < forwarded(projects, path, marked).len() ==> (#[trigger] forwarded(projects, path, marked)[k]).0
                != projects[at].location(),
    decreases projects.len(),
{
    let gone = projects[at].location();
    lemma_only_staying_roots(projects, path, marked);
    assert forall|k: int| 0 <= k < kept(projects, path, marked).len() implies roots_of(kept(projects, path,
        marked))[k] != gone by {
        let j = choose|j: int| 0 <= j < projects.len() && projects[j] == kept(projects, path, marked)[k]
            && !is_gone(projects[j].location(), path, marked);
        if j != at {
            if j < at {
                assert(roots_of(projects)[j] != roots_of(projects)[at]);
            } else {
                assert(roots_of(projects)[at] != roots_of(projects)[j]);
            }
        }
    }
    assert forall|k: int| 0 <= k < forwarded(projects, path, marked).len() implies (#[trigger] forwarded(projects,
        path, marked)[k]).0 != gone by {
        let j = choose|j: int| 0 <= j < projects.len() && projects[j].location() == forwarded(projects, path,
            marked)[k].0 && !is_gone(projects[j].location(), path, marked);
        if j != at {
            if j < at {
                assert(roots_of(projects)[j] != roots_of(projects)[at]);
            } else {
                assert(roots_of(projects)[at] != roots_of(projects)[j]);
            }
        }
    }
}

/// A directory with a marker file becomes a project on the first change in it: of the
/// directories probed for an event, exactly those are opened in which the changed path
/// lies, that lie in the folder, that are no project yet and that were found to hold a
/// marker file.
pub proof fn lemma_discovered_with_marker(
    dirs: Seq<Seq<char>>,
    marked: Seq<(String, bool)>,
    path: Seq<char>,
    folder: Seq<char>,
    roots: Seq<Seq<char>>,
    dir: Seq<char>,
)
    ensures
        discovered(dirs, marked, path, folder, roots).contains(dir) <==> dirs.contains(dir) && is_opening(
            dir,
            marked,
            path,
            folder,
            roots,
        ),
    decreases dirs.len(),
{
    let found = discovered(dirs, marked, path, folder, roots);
    if dirs.len() > 0 {
        let rest = dirs.drop_last();
        let before = discovered(rest, marked, path, folder, roots);
        let last = dirs.last();
        lemma_discovered_with_marker(rest, marked, path, folder, roots, dir);
        let taken = is_opening(last, marked, path, folder, roots) && !before.contains(last);
        if found.contains(dir) {
            let i = choose|i: int| 0 <= i < found.len() && found[i] == dir;
            if taken && i == before.len() {
                assert(dirs[dirs.len() - 1] == dir);
            } else {
                assert(before[i] == dir);
                let j = choose|j: int| 0 <= j < rest.len() && rest[j] == dir;
                assert(dirs[j] == dir);
            }
        }
        if dirs.contains(dir) && is_opening(dir, marked, path, folder, roots) {
            let j = choose|j: int| 0 <= j < dirs.len() && dirs[j] == dir;
            if before.contains(dir) {
                let i = choose|i: int| 0 <= i < before.len() && before[i] == dir;
                assert(found[i] == dir);
            } else if j == dirs.len() - 1 {
                assert(found[before.len() as int] == dir);
            } else {
                assert(rest[j] == dir);
            }
        }
    }
}

/// Every project that stays, and every project for which something is to be done, is a
/// project of the list whose marker file was not found gone.
proof fn lemma_only_staying_roots<T: Target>(projects: Seq<Project<T>>, path: Seq<char>, marked: Seq<(String, bool)>)
    ensures
        forall|k: int|
            0 <= k < kept(projects, path, marked).len() ==> exists|j: int|
                0 <= j < projects.len() && projects[j] == #[trigger] kept(projects, path, marked)[k] && !is_gone(
                    projects[j].location(),
                    path,
                    marked,
                ),
        forall|k: int|
            0 <= k < forwarded(projects, path, marked).len() ==> exists|j: int|
                0 <= j < projects.len() && projects[j].location() == (#[trigger] forwarded(projects, path, marked)[k]).0
                    && !is_gone(projects[j].location(), path, marked),
    decreases projects.len(),
{
    if projects.len() > 0 {
        let rest = projects.drop_last();
        lemma_only_staying_roots(rest, path, marked);
        assert forall|k: int| 0 <= k < kept(projects, path, marked).len() implies exists|j: int|
            0 <= j < projects.len() && projects[j] == #[trigger] kept(projects, path, marked)[k] && !is_gone(
                projects[j].location(),
                path,
                marked,
            ) by {
            if k < kept(rest, path, marked).len() {
                let j = choose|j: int| 0 <= j < rest.len() && rest[j] == kept(rest, path, marked)[k]
                    && !is_gone(rest[j].location(), path, marked);
                assert(projects[j] == rest[j]);
            } else {
                assert(projects[projects.len() - 1] == kept(projects, path, marked)[k]);
            }
        }
        assert forall|k: int| 0 <= k < forwarded(projects, path, marked).len() implies exists|j: int|
            0 <= j < projects.len() && projects[j].location() == (#[trigger] forwarded(projects, path, marked)[k]).0
                && !is_gone(projects[j].location(), path, marked) by {
            if k < forwarded(rest, path, marked).len() {
                let j = choose|j: int| 0 <= j < rest.len() && rest[j].location() == forwarded(rest, path,
                    marked)[k].0 && !is_gone(rest[j].location(), path, marked);
                assert(projects[j] == rest[j]);
            } else {
                assert(projects[projects.len() - 1].location() == forwarded(projects, path, marked)[k].0);
            }
        }
    }

}

/// The projects that stay keep their order, so two of them at different places are two
/// different projects of the list, with different directories where the list has none twice.
proof fn lemma_kept_in_order<T: Target>(projects: Seq<Project<T>>, path: Seq<char>, marked: Seq<(String, bool)>,
    a: int, b: int)
    requires
        distinct(roots_of(projects)),
        0 <= a < b < kept(projects, path, marked).len(),
    ensures
        kept(projects, path, marked)[a].location() != kept(projects, path, marked)[b].location(),
{
    lemma_kept_places(projects, path, marked);
    let map = choose|map: Seq<int>| is_placement(projects, kept(projects, path, marked), map);
    assert(map[a] < map[b]);
    assert(roots_of(projects)[map[a]] != roots_of(projects)[map[b]]);
}

/// Whether `map` gives, for each of `chosen`, its place in `projects`, places rising.
spec fn is_placement<T: Target>(projects: Seq<Project<T>>, chosen: Seq<Project<T>>, map: Seq<int>) -> bool {
    &&& map.len() == chosen.len()
    &&& forall|i: int| 0 <= i < map.len() ==> 0 <= #[trigger] map[i] < projects.len() && projects[map[i]] == chosen[i]
    &&& forall|i: int, j: int| 0 <= i < j < map.len() ==> #[trigger] map[i] < #[trigger] map[j]
}

/// The projects that stay can be found in the list at rising places.
proof fn lemma_kept_places<T: Target>(projects: Seq<Project<T>>, path: Seq<char>, marked: Seq<(String, bool)>)
    ensures
        exists|map: Seq<int>| is_placement(projects, kept(projects, path, marked), map),
    decreases projects.len(),
{
    if projects.len() == 0 {
        assert(is_placement(projects, kept(projects, path, marked), Seq::<int>::empty()));
    } else {
        let rest = projects.drop_last();
        lemma_kept_places(rest, path, marked);
        let map = choose|map: Seq<int>| is_placement(rest, kept(rest, path, marked), map);
        if is_gone(projects.last().location(), path, marked) {
            assert(is_placement(projects, kept(projects, path, marked), map));
        } else {
            let more = map.push(projects.len() - 1);
            assert(is_placement(projects, kept(projects, path, marked), more));
        }
    }
}

/// The path and the directories above it, nearest first.
pub fn ancestry(path: &str) -> (dirs: Vec<String>)
    ensures
        texts_of(dirs@) == lineage(path@),
{
    let mut dirs: Vec<String> = Vec::new();
    let mut current = String::from_str(path);
    loop
        invariant
            lineage(path@) == texts_of(dirs@) + lineage(current@),
        decreases current@.len(),
    {
        let ghost before = texts_of(dirs@);
        let ghost here = current@;
        dirs.push(current.clone());
        assert(texts_of(dirs@) =~= before.push(here));
        match parent(current.as_str()) {
            Some(up) => {
                assert(before + (seq![here] + lineage(up@)) =~= texts_of(dirs@) + lineage(up@));
                current = up;
            },
            None => {
                assert(before + seq![here] =~= texts_of(dirs@));
                return dirs;
            },
        }
    }
}

/// A folder as the editor announces it.
#[derive(Debug, PartialEq, Eq)]
pub struct WorkspaceFolder {
    /// The directory, as a `file:` URL.
    pub uri: String,
    /// The name that the editor shows.
    pub name: String,
}

/// The local paths that a list of announced folders stands for, in order. A folder whose
/// URL stands for no local path is left out.
pub open spec fn local_paths(announced: Seq<WorkspaceFolder>) -> Seq<Seq<char>>
    decreases announced.len(),
{
    if announced.len() == 0 {
        Seq::empty()
    } else {
        let before = local_paths(announced.drop_last());
        match file_path_of(announced.last().uri@) {
            Some(path) => before.push(path),
            None => before,
        }
    }
}

/// The roots without `gone`, where it is among them.
pub open spec fn root_removed(roots: Seq<Seq<char>>, gone: Seq<char>) -> Seq<Seq<char>> {
    if roots.contains(gone) {
        roots.remove(roots.index_of(gone))
    } else {
        roots
    }
}

/// The roots with `fresh` at the end, where it is not among them yet.
pub open spec fn root_added(roots: Seq<Seq<char>>, fresh: Seq<char>) -> Seq<Seq<char>> {
    if roots.contains(fresh) {
        roots
    } else {
        roots.push(fresh)
    }
}

/// The roots that are left when the roots in `gone` are taken away, one after the other.
pub open spec fn roots_without(roots: Seq<Seq<char>>, gone: Seq<Seq<char>>) -> Seq<Seq<char>>
    decreases gone.len(),
{
    if gone.len() == 0 {
        roots
    } else {
        root_removed(roots_without(roots, gone.drop_last()), gone.last())
    }
}

/// The roots after those in `fresh` were added, one after the other: a root that is there
/// already keeps its place.
pub open spec fn roots_with(roots: Seq<Seq<char>>, fresh: Seq<Seq<char>>) -> Seq<Seq<char>>
    decreases fresh.len(),
{
    if fresh.len() == 0 {
        roots
    } else {
        root_added(roots_with(roots, fresh.drop_last()), fresh.last())
    }
}

/// The directories of a list of folders.
pub open spec fn folder_roots<T: Target>(folders: Seq<Folder<T>>) -> Seq<Seq<char>> {
    Seq::new(folders.len(), |i: int| folders[i].location())
}

/// The folders under which `path` lies, by their places in the list, in order.
pub open spec fn routed<T: Target>(folders: Seq<Folder<T>>, path: Seq<char>) -> Seq<int>
    decreases folders.len(),
{
    if folders.len() == 0 {
        Seq::empty()
    } else if is_under(path, folders.last().location()) {
        routed(folders.drop_last(), path).push(folders.len() - 1)
    } else {
        routed(folders.drop_last(), path)
    }
}

/// The reports to offer for the document at the local path `path`, grouped by range: those
/// of each folder under which the path lies, in the order of the folders.
pub open spec fn folder_groups<T: Target>(folders: Seq<Folder<T>>, path: Seq<char>) -> Seq<(Range, Seq<Report>)>
    decreases folders.len(),
{
    if folders.len() == 0 {
        Seq::empty()
    } else {
        let before = folder_groups(folders.drop_last(), path);
        if is_under(path, folders.last().location()) {
            before + project_groups(folders.last().projects(), path)
        } else {
            before
        }
    }
}

/// A workspace: the folders that the editor has open.
pub struct Workspace<T: Target> {
    folders: Vec<Folder<T>>,
}

impl<T: Target> Workspace<T> {
    /// The folders of the workspace, in the order in which they were opened.
    pub closed spec fn folders(&self) -> Seq<Folder<T>> {
        self.folders@
    }

    /// The directories of the folders.
    pub open spec fn roots(&self) -> Seq<Seq<char>> {
        folder_roots(self.folders())
    }

    /// Every folder is sound, and no directory is open twice.
    pub open spec fn wf(&self) -> bool {
        &&& forall|i: int| 0 <= i < self.folders().len() ==> (#[trigger] self.folders()[i]).wf()
        &&& distinct(self.roots())
    }

    /// A workspace without folders.
    pub fn new() -> (workspace: Self)
        ensures
            workspace.wf(),
            workspace.folders().len() == 0,
    {
        Workspace { folders: Vec::new() }
    }

    /// The index of the folder in `root`.
    fn position(&self, root: &str) -> (found: Option<usize>)
        ensures
            match found {
                Some(at) => at < self.folders@.len() && self.folders@[at as int].location() == root@,
                None => !folder_roots(self.folders@).contains(root@),
            },
    {
        let mut i: usize = 0;
        while i < self.folders.len()
            invariant
                i <= self.folders.len(),
                forall|k: int| 0 <= k < i ==> folder_roots(self.folders@)[k] != root@,
            decreases self.folders.len() - i,
        {
            if same_text(self.folders[i].root(), root) {
                return Some(i);
            }
            assert(folder_roots(self.folders@)[i as int] == self.folders@[i as int].location());
            i += 1;
        }
        None
    }

    /// Closes the folder in `root`, if it is open.
    fn close(&mut self, root: &str)
        requires
            old(self).wf(),
        ensures
            final(self).wf(),
            final(self).roots() == root_removed(old(self).roots(), root@),
            forall|i: int|
                0 <= i < final(self).folders().len()
                    ==> old(self).folders().contains(#[trigger] final(self).folders()[i]),
    {
        let ghost before = self.folders@;
        let ghost roots = folder_roots(before);
        match self.position(root) {
            Some(at) => {
                proof {
                    assert(roots[at as int] == root@);
                    assert(roots.contains(root@));
                    let first = roots.index_of(root@);
                    if first < at {
                        assert(roots[first] != roots[at as int]);
                    }
                    if at < first {
                        assert(roots[at as int] != roots[first]);
                    }
                }
                self.folders.remove(at);
                assert(folder_roots(self.folders@) =~= roots.remove(at as int));
                assert forall|a: int, b: int| 0 <= a < b < self.folders@.len() implies folder_roots(self.folders@)[a]
                    != folder_roots(self.folders@)[b] by {
                    let x = if a < at {
                        a
                    } else {
                        a + 1
                    };
                    let y = if b < at {
                        b
                    } else {
                        b + 1
                    };
                    assert(roots[x] != roots[y]);
                }
                assert forall|i: int| 0 <= i < self.folders@.len()
                    implies before.contains(#[trigger] self.folders@[i]) by {
                    let x = if i < at {
                        i
                    } else {
                        i + 1
                    };
                    assert(before[x] == self.folders@[i]);
                }
            },
            None => {
                assert forall|i: int| 0 <= i < self.folders@.len()
                    implies before.contains(#[trigger] self.folders@[i]) by {
                    assert(before[i] == self.folders@[i]);
                }
            },
        }
    }

    /// Opens the folder in `root`, without any project. A folder that is open for the same
    /// directory starts anew.
    fn open(&mut self, root: String)
        requires
            old(self).wf(),
        ensures
            final(self).wf(),
            final(self).roots() == root_added(old(self).roots(), root@),
            forall|i: int|
                0 <= i < final(self).folders().len() ==> {
                    ||| old(self).folders().contains(#[trigger] final(self).folders()[i])
                    ||| final(self).folders()[i].location() == root@ && final(self).folders()[i].projects().len() == 0
                },
            exists|i: int|
                0 <= i < final(self).folders().len() && (#[trigger] final(self).folders()[i]).location() == root@
                    && final(self).folders()[i].projects().len() == 0,
    {
        let ghost before = self.folders@;
        let ghost roots = folder_roots(before);
        match self.position(root.as_str()) {
            Some(at) => {
                proof {
                    assert(roots[at as int] == root@);
                    assert(roots.contains(root@));
                }
                self.folders[at] = Folder::new(root);
                assert(folder_roots(self.folders@) =~= roots);
                assert forall|i: int| 0 <= i < self.folders@.len() implies {
                    ||| before.contains(#[trigger] self.folders@[i])
                    ||| self.folders@[i].location() == root@ && self.folders@[i].projects().len() == 0
                } by {
                    if i != at {
                        assert(before[i] == self.folders@[i]);
                    }
                }
                assert(self.folders@[at as int].location() == root@);
            },
            None => {
                self.folders.push(Folder::new(root));
                assert(folder_roots(self.folders@) =~= roots.push(root@));
                assert forall|a: int, b: int| 0 <= a < b < self.folders@.len() implies folder_roots(self.folders@)[a]
                    != folder_roots(self.folders@)[b] by {
                    if b < before.len() {
                        assert(roots[a] != roots[b]);
                    } else {
                        assert(roots.contains(roots[a]));
                    }
                }
                assert forall|i: int| 0 <= i < self.folders@.len() implies {
                    ||| before.contains(#[trigger] self.folders@[i])
                    ||| self.folders@[i].location() == root@ && self.folders@[i].projects().len() == 0
                } by {
                    if i < before.len() {
                        assert(before[i] == self.folders@[i]);
                    }
                }
                assert(self.folders@[before.len() as int].location() == root@);
            },
        }
    }

    /// Takes note that the editor closed some folders and opened others.
    ///
    /// The folders that were closed are dropped with all their projects. The folders that
    /// were opened start without projects: their directories are handed back, in order, to
    /// be scanned. A folder whose URL stands for no local path is passed over.
    pub fn folders_changed(&mut self, added: Vec<WorkspaceFolder>,
        removed: Vec<WorkspaceFolder>) -> (opened: Vec<String>)
        requires
            old(self).wf(),
        ensures
            final(self).wf(),
            final(self).roots() == roots_with(roots_without(old(self).roots(), local_paths(removed@)),
                local_paths(added@)),
            texts_of(opened@) == local_paths(added@),
            forall|i: int|
                0 <= i < final(self).folders().len() ==> {
                    ||| old(self).folders().contains(#[trigger] final(self).folders()[i])
                    ||| local_paths(added@).contains(final(self).folders()[i].location())
                        && final(self).folders()[i].projects().len()
                        == 0
                },
    {
        let ghost start = self.folders@;
        let ghost first_roots = self.roots();
        let mut i: usize = 0;
        assert(removed@.take(0) =~= Seq::empty());
        assert forall|k: int| 0 <= k < self.folders@.len() implies start.contains(#[trigger] self.folders@[k]) by {
            assert(start[k] == self.folders@[k]);
        }
        while i < removed.len()
            invariant
                i <= removed.len(),
                self.wf(),
                first_roots == folder_roots(start),
                self.roots() == roots_without(first_roots, local_paths(removed@.take(i as int))),
                forall|k: int| 0 <= k < self.folders@.len() ==> start.contains(#[trigger] self.folders@[k]),
            decreases removed.len() - i,
        {
            assert(removed@.take(i + 1).drop_last() =~= removed@.take(i as int));
            assert(removed@.take(i + 1).last() == removed@[i as int]);
            match as_path(removed[i].uri.as_str()) {
                Some(path) => {
                    proof {
                        let earlier = local_paths(removed@.take(i as int));
                        let later = local_paths(removed@.take(i + 1));
                        assert(later == earlier.push(path@));
                        assert(later.drop_last() =~= earlier);
                        assert(later.last() == path@);
                    }
                    self.close(path.as_str());
                },
                None => {},
            }
            i += 1;
        }
        assert(removed@.take(removed.len() as int) =~= removed@);
        let ghost middle = self.roots();
        let mut opened: Vec<String> = Vec::new();
        let mut j: usize = 0;
        assert(added@.take(0) =~= Seq::empty());
        assert(texts_of(opened@) =~= Seq::empty());
        while j < added.len()
            invariant
                j <= added.len(),
                self.wf(),
                self.roots() == roots_with(middle, local_paths(added@.take(j as int))),
                texts_of(opened@) == local_paths(added@.take(j as int)),
                forall|k: int|
                    0 <= k < self.folders@.len() ==> {
                        ||| start.contains(#[trigger] self.folders@[k])
                        ||| local_paths(added@.take(j as int)).contains(self.folders@[k].location())
                            && self.folders@[k].projects().len()
                            == 0
                    },
            decreases added.len() - j,
        {
            assert(added@.take(j + 1).drop_last() =~= added@.take(j as int));
            assert(added@.take(j + 1).last() == added@[j as int]);
            let ghost known = local_paths(added@.take(j as int));
            let ghost held = self.folders@;
            match as_path(added[j].uri.as_str()) {
                Some(path) => {
                    let ghost before = self.roots();
                    let ghost told = texts_of(opened@);
                    opened.push(path.clone());
                    assert(texts_of(opened@) =~= told.push(path@));
                    self.open(path);
                    proof {
                        let more = local_paths(added@.take(j + 1));
                        assert(more == known.push(path@));
                        assert(more.drop_last() =~= known);
                        assert(more.last() == path@);
                        assert(more[known.len() as int] == path@);
                        assert forall|k: int| 0 <= k < self.folders@.len() implies {
                            ||| start.contains(#[trigger] self.folders@[k])
                            ||| more.contains(self.folders@[k].location()) && self.folders@[k].projects().len() == 0
                        } by {
                            if held.contains(self.folders@[k]) {
                                let x = choose|x: int| 0 <= x < held.len() && held[x] == self.folders@[k];
                                if !start.contains(held[x]) {
                                    let y = choose|y: int| 0 <= y < known.len() && known[y] == held[x].location();
                                    assert(more[y] == known[y]);
                                }
                            }
                        }
                    }
                },
                None => {},
            }
            j += 1;
        }
        assert(added@.take(added.len() as int) =~= added@);
        opened
    }

    /// The folders under which `path` lies, by their places in the list.
    pub fn routes(&self, path: &str) -> (places: Vec<usize>)
        ensures
            places@.map_values(|place: usize| place as int) == routed(self.folders(), path@),
    {
        let mut places: Vec<usize> = Vec::new();
        let mut i: usize = 0;
        assert(self.folders@.take(0) =~= Seq::empty());
        assert(places@.map_values(|place: usize| place as int) =~= Seq::empty());
        while i < self.folders.len()
            invariant
                i <= self.folders.len(),
                places@.map_values(|place: usize| place as int) == routed(self.folders@.take(i as int), path@),
            decreases self.folders.len() - i,
        {
            let ghost before = places@.map_values(|place: usize| place as int);
            assert(self.folders@.take(i + 1).drop_last() =~= self.folders@.take(i as int));
            assert(self.folders@.take(i + 1).last() == self.folders@[i as int]);
            if starts_with(path, self.folders[i].root()) {
                places.push(i);
                assert(places@.map_values(|place: usize| place as int) =~= before.push(i as int));
            }
            i += 1;
        }
        assert(self.folders@.take(self.folders.len() as int) =~= self.folders@);
        places
    }

    /// Says where a change of the document `url` is to go: the local path of the document,
    /// and the folders under which it lies. Nothing where the URL stands for no local path.
    pub fn changed(&self, url: &str) -> (route: Option<(String, Vec<usize>)>)
        ensures
            match route {
                Some((path, places)) => file_path_of(url@) == Some(path@)
                    && places@.map_values(|place: usize| place as int)
                    == routed(self.folders(), path@),
                None => file_path_of(url@).is_none(),
            },
    {
        match as_path(url) {
            Some(path) => {
                let places = self.routes(path.as_str());
                Some((path, places))
            },
            None => None,
        }
    }

    /// The number of folders.
    pub fn len(&self) -> (count: usize)
        ensures
            count == self.folders().len(),
    {
        self.folders.len()
    }

    /// The folder at `at`, to work on.
    pub fn folder_mut(&mut self, at: usize) -> (folder: &mut Folder<T>)
        requires
            at < old(self).folders().len(),
        ensures
            *folder == old(self).folders()[at as int],
            final(self).folders() == old(self).folders().update(at as int, *final(folder)),
    {
        &mut self.folders[at]
    }

    /// The commands to offer for the document `url`: those that the folders under which it
    /// lies offer. None where the URL stands for no local path.
    pub fn code_lens(&self, url: &str) -> (lenses: Vec<CodeLens>)
        requires
            self.wf(),
        ensures
            match file_path_of(url@) {
                Some(path) => offer_all(lenses@, folder_groups(self.folders(), path)),
                None => lenses.len() == 0,
            },
    {
        let mut lenses: Vec<CodeLens> = Vec::new();
        match as_path(url) {
            Some(path) => {
                let mut i: usize = 0;
                assert(self.folders@.take(0) =~= Seq::empty());
                while i < self.folders.len()
                    invariant
                        i <= self.folders.len(),
                        self.wf(),
                        offer_all(lenses@, folder_groups(self.folders@.take(i as int), path@)),
                    decreases self.folders.len() - i,
                {
                    let ghost before = lenses@;
                    let ghost groups = folder_groups(self.folders@.take(i as int), path@);
                    assert(self.folders@.take(i + 1).drop_last() =~= self.folders@.take(i as int));
                    assert(self.folders@.take(i + 1).last() == self.folders@[i as int]);
                    assert(self.folders()[i as int].wf());
                    if starts_with(path.as_str(), self.folders[i].root()) {
                        let mut more = self.folders[i].code_lens(path.as_str());
                        proof {
                            lemma_offer_all_joined(before, groups, more@,
                                project_groups(self.folders@[i as int].projects(), path@));
                        }
                        lenses.append(&mut more);
                    }
                    i += 1;
                }
                assert(self.folders@.take(self.folders.len() as int) =~= self.folders@);
            },
            None => {},
        }
        lenses
    }

    /// The actions to offer for a range of the document `url`: none.
    pub fn code_action(&self, _url: &str, _range: &Range) -> (actions: Vec<Command>)
        ensures
            actions.len() == 0,
    {
        Vec::new()
    }
}

} // verus!
