//! Dependencies of a Maven project, from its manifest.

use crate::enforcer::dependency::Dependency;
use crate::enforcer::source::Error;
use crate::highlight::Range;
use crate::utils::location::{file_url, file_url_of};
use crate::utils::paths::{join, joined};
use vstd::prelude::*;

pub mod pom;

verus! {

/// The manifest of a Maven project.
pub const MAVEN_FILE: &'static str = "pom.xml";

/// The coordinate of a Maven artifact.
#[derive(Debug, PartialEq, Eq)]
pub struct MavenDependency {
    pub group_id: String,
    pub artifact_id: String,
    pub version: String,
    pub kind: Option<String>,
    pub classifier: Option<String>,
}

impl MavenDependency {
    /// The coordinate that a declaration of a manifest names. The classifier is not taken
    /// over.
    pub fn from_pom(value: pom::Dependency) -> (coordinate: Self)
        ensures
            coordinate.group_id == value.group_id,
            coordinate.artifact_id == value.artifact_id,
            coordinate.version == value.version,
            coordinate.kind == value.kind,
            coordinate.classifier.is_none(),
    {
        MavenDependency {
            group_id: value.group_id,
            artifact_id: value.artifact_id,
            version: value.version,
            kind: value.kind,
            classifier: None,
        }
    }
}

/// Reads the dependencies of a Maven project from the manifest alone. It knows nothing of
/// parents, profiles or managed versions: the source that works from a bill of materials
/// does.
pub struct MavenSource {
    root: String,
}

impl MavenSource {
    /// The directory of the project.
    pub closed spec fn location(&self) -> Seq<char> {
        self.root@
    }

    /// A source for the project in `root`.
    pub fn new(root: String) -> (source: Self)
        ensures
            source.location() == root@,
    {
        MavenSource { root }
    }

    /// The manifest of the project.
    pub fn manifest_path(&self) -> (path: String)
        ensures
            path@ == joined(self.location(), MAVEN_FILE@),
    {
        join(self.root.as_str(), MAVEN_FILE)
    }

    /// The dependencies that a manifest declares, in order. The first declaration that
    /// stands for no dependency fails the whole.
    pub fn dependencies(project: &pom::Project) -> (found: Result<Vec<Dependency>, Error>)
        ensures
            match found {
                Ok(list) => list.len() == project.dependencies.dependency.len() && forall|i: int|
                    0 <= i < list.len() ==> pom::purl_of(project.dependencies.dependency[i])
                        == Some((#[trigger] list[i])@),
                Err(_) => exists|i: int|
                    0 <= i < project.dependencies.dependency.len() && pom::purl_of(
                        #[trigger] project.dependencies.dependency[i],
                    ).is_none(),
            },
    {
        let declared = &project.dependencies.dependency;
        let mut list: Vec<Dependency> = Vec::new();
        let mut i: usize = 0;
        while i < declared.len()
            invariant
                i <= declared.len(),
                list.len() == i,
                *declared == project.dependencies.dependency,
                forall|k: int| 0 <= k < i ==> pom::purl_of(declared[k]) == Some((#[trigger] list[k])@),
            decreases declared.len() - i,
        {
            match declared[i].try_into_dependency() {
                Ok(dependency) => list.push(dependency),
                Err(error) => return Err(error),
            }
            i += 1;
        }
        Ok(list)
    }

    /// Where a dependency is declared: in the manifest, at no place in particular.
    pub fn highlight(&self, _dependency: &Dependency) -> (place: Result<(String, Range), Error>)
        ensures
            match place {
                Ok((url, range)) => file_url_of(joined(self.location(), MAVEN_FILE@)) == Some(url@) && range
                    == Range::origin(),
                Err(error) => file_url_of(joined(self.location(), MAVEN_FILE@)).is_none() && error == Error::Location,
            },
    {
        let path = self.manifest_path();
        match file_url(path.as_str()) {
            Some(url) => Ok((url, Range::default())),
            None => Err(Error::Location),
        }
    }
}

} // verus!
